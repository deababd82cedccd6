use sv2chisel::converter::{module_to_chisel, port_to_chisel, ChiselConverter};
use sv2chisel::hdl_info::{HdlInfo, Module, Port};
use sv2chisel::text::{
    chars_of, decimal_string, indent_block, replace_all, split_lines, string_of, trim_range,
    white_space,
};

fn adder() -> HdlInfo {
    let mut t = HdlInfo::new();
    t.add_module("adder");
    t.add_ports("a", "input", "wire", "8", &Some("[7:0]".to_string()));
    t.add_ports("sum", "output", "logic", "[W-1:0]", &Some("[W-1:0]".to_string()));
    t.add_ports("carry", "output", "wire", "1", &None);
    t
}

#[test]
fn port_becomes_a_field() {
    let p = Port::new("data", "input", "wire", "8", &None);
    assert_eq!(port_to_chisel(&p), "val data = input(UInt(8.W))");
    assert_eq!(p.to_chisel(), "val data = input(UInt(8.W))");
    let q = Port::new("x", "inout", "wire", "[N:0]", &Some("[N:0]".to_string()));
    assert_eq!(port_to_chisel(&q), "val x = inout(UInt([N:0].W))");
}

#[test]
fn inline_layout() {
    let t = adder();
    let out = ChiselConverter::builder().emit_chisel_string(&t);
    assert_eq!(
        out,
        vec![concat_lines(&[
            "import chisel3._",
            "",
            "class adder extends BlackBox {",
            "    val io = IO(new Bundle {",
            "        val a = input(UInt(8.W))",
            "        val sum = output(UInt([W-1:0].W))",
            "        val carry = output(UInt(1.W))",
            "    })",
            "}",
        ])]
    );
}

fn concat_lines(lines: &[&str]) -> String {
    let mut s = String::new();
    for l in lines {
        s.push_str(l);
        s.push('\n');
    }
    s
}

#[test]
fn split_layout() {
    let t = adder();
    let out = ChiselConverter::builder().split_bundle().emit_chisel_string(&t);
    assert_eq!(
        out,
        vec![concat_lines(&[
            "import chisel3._",
            "",
            "class adder_Bundle extends Bundle {",
            "        val a = input(UInt(8.W))",
            "        val sum = output(UInt([W-1:0].W))",
            "        val carry = output(UInt(1.W))",
            "}",
            "",
            "class adder extends BlackBox {",
            "    val io = IO(new adder_Bundle)",
            "}",
        ])]
    );
}

#[test]
fn plain_layout_of_a_module() {
    let t = adder();
    assert_eq!(
        t.get_modules()[0].to_chisel(),
        concat_lines(&[
            "import chisel3._",
            "",
            "class adder extends BlackBox {",
            "    val io = new Bundle {",
            "        val a = input(UInt(8.W))",
            "        val sum = output(UInt([W-1:0].W))",
            "        val carry = output(UInt(1.W))",
            "    }",
            "}",
        ])
    );
}

#[test]
fn module_without_ports() {
    let m = Module::new("empty");
    assert_eq!(
        module_to_chisel(&m, false),
        "import chisel3._\n\nclass empty extends BlackBox {\n    val io = IO(new Bundle {\n\n    })\n}\n"
    );
    assert_eq!(
        module_to_chisel(&m, true),
        "import chisel3._\n\nclass empty_Bundle extends Bundle {\n\n}\n\nclass empty extends BlackBox {\n    val io = IO(new empty_Bundle)\n}\n"
    );
}

fn fields(text: &str) -> Vec<String> {
    text.lines().filter(|l| l.trim_start().starts_with("val ") && !l.contains("val io")).map(|l| l.to_string()).collect()
}

#[test]
fn both_layouts_have_the_same_fields() {
    let t = adder();
    let inline = ChiselConverter::builder().emit_chisel_string(&t);
    let split = ChiselConverter::builder().split_bundle().emit_chisel_string(&t);
    assert_eq!(fields(&inline[0]), fields(&split[0]));
    assert_eq!(
        fields(&inline[0]),
        vec![
            "        val a = input(UInt(8.W))".to_string(),
            "        val sum = output(UInt([W-1:0].W))".to_string(),
            "        val carry = output(UInt(1.W))".to_string(),
        ]
    );
}

#[test]
fn one_text_for_each_module_in_order() {
    let mut t = adder();
    t.add_module("second");
    t.add_ports("x", "input", "wire", "1", &None);
    let out = ChiselConverter::builder().emit_chisel_string(&t);
    assert_eq!(out.len(), 2);
    assert!(out[0].contains("class adder extends BlackBox"));
    assert!(out[1].contains("class second extends BlackBox"));
    assert_eq!(ChiselConverter::builder().emit_chisel_string(&HdlInfo::new()).len(), 0);
}

#[test]
fn files_are_named_after_the_modules() {
    let mut t = adder();
    t.add_module("second");
    let inline = ChiselConverter::builder();
    let files = inline.emit_chisel(&t);
    let texts = inline.emit_chisel_string(&t);
    assert_eq!(files.len(), 2);
    assert_eq!(files[0].file_name, "adder.scala");
    assert_eq!(files[1].file_name, "second.scala");
    assert_eq!(files[0].contents, texts[0]);
    assert_eq!(files[1].contents, texts[1]);
    let split = ChiselConverter::default().split_bundle().emit_chisel(&t);
    assert_eq!(split[0].file_name, "adder.scala");
    assert!(split[0].contents.contains("class adder_Bundle extends Bundle"));
}

#[test]
fn indentation_of_lines() {
    assert_eq!(indent_block("a\nb", 2), "  a\n  b");
    assert_eq!(indent_block("a\n\nb\n", 4), "    a\n\n    b");
    assert_eq!(indent_block("a\r\nb\r", 1), " a\n b\r");
    assert_eq!(indent_block("", 8), "");
    assert_eq!(indent_block("\n", 8), "");
    assert_eq!(indent_block("\n\n", 8), "\n");
    assert_eq!(indent_block("x", 0), "x");
    assert_eq!(Module::indent_block("p\nq", 3), "   p\n   q");
}

fn lines(text: &str) -> Vec<String> {
    split_lines(&chars_of(text)).iter().map(|l| string_of(l)).collect()
}

#[test]
fn lines_of_a_text() {
    assert_eq!(lines("a\nb"), vec!["a".to_string(), "b".to_string()]);
    assert_eq!(lines("a\nb\n"), vec!["a".to_string(), "b".to_string()]);
    assert_eq!(lines("a\r\n\r\nb"), vec!["a".to_string(), "".to_string(), "b".to_string()]);
    assert_eq!(lines("\r"), vec!["\r".to_string()]);
    assert_eq!(lines("\r\n"), vec!["".to_string()]);
    assert_eq!(lines(""), Vec::<String>::new());
    for sample in ["a\nb", "a\nb\n", "a\r\n\r\nb", "\r", "\r\n", "", "x\r\r\ny\n\n", "\n\nz"] {
        let expected: Vec<String> = sample.lines().map(|l| l.to_string()).collect();
        assert_eq!(lines(sample), expected);
    }
}

fn replace(text: &str, pattern: &str, with: &str) -> String {
    string_of(&replace_all(&chars_of(text), &chars_of(pattern), &chars_of(with)))
}

#[test]
fn replacement_of_substrings() {
    assert_eq!(replace("a**b**c", "**", " `pow` "), "a `pow` b `pow` c");
    assert_eq!(replace("aaa", "aa", "b"), "ba");
    assert_eq!(replace("$clog2($clog2(x))", "$clog2", "clog2"), "clog2(clog2(x))");
    assert_eq!(replace("abc", "", "x"), "abc");
    assert_eq!(replace("", "a", "x"), "");
    assert_eq!(replace("abc", "abcd", "x"), "abc");
    assert_eq!(replace("abc", "abc", ""), "");
    for (t, p, w) in [("a**b**c", "**", "^"), ("aaaa", "aa", "a"), ("xyz", "q", "r"), ("ababab", "aba", "c")] {
        assert_eq!(replace(t, p, w), t.replace(p, w));
    }
}

#[test]
fn decimal_numerals() {
    assert_eq!(decimal_string(0), "0");
    assert_eq!(decimal_string(7), "7");
    assert_eq!(decimal_string(10), "10");
    assert_eq!(decimal_string(255), "255");
    assert_eq!(decimal_string(1000000), "1000000");
    assert_eq!(decimal_string(u64::MAX), "18446744073709551615");
}

#[test]
fn trimming() {
    let s = chars_of("  \t[7:0]\n ");
    assert_eq!(trim_range(&s, 0, s.len()), (3, 8));
    let blank = chars_of("   ");
    assert_eq!(trim_range(&blank, 0, 3), (3, 3));
    let none = chars_of("ab");
    assert_eq!(trim_range(&none, 0, 2), (0, 2));
    assert_eq!(trim_range(&none, 1, 1), (1, 1));
    for u in 0u32..0x3100 {
        if let Some(c) = char::from_u32(u) {
            assert_eq!(white_space(c), c.is_whitespace());
        }
    }
}
