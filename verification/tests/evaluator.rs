use sv2chisel::eval::{
    clog2, compute_packed_range_width_bits, eval_int_expr, power, preprocess_for_rhai,
    split_range, width_from_bounds,
};
use sv2chisel::hdl_info::Define;
use sv2chisel::literal::{parse_sv_number, sized_literal_text, sized_literal_value};

fn no_macros() -> Vec<Define> {
    Vec::new()
}

#[test]
fn clog2_of_small_values() {
    assert_eq!(clog2(1), 0);
    assert_eq!(clog2(2), 1);
    assert_eq!(clog2(5), 3);
    assert_eq!(clog2(1024), 10);
}

#[test]
fn clog2_edges() {
    assert_eq!(clog2(0), 0);
    assert_eq!(clog2(-7), 0);
    assert_eq!(clog2(3), 2);
    assert_eq!(clog2(1025), 11);
    assert_eq!(clog2(i64::MAX), 63);
    assert_eq!(clog2((1i64 << 62) + 1), 63);
    assert_eq!(clog2(1i64 << 62), 62);
}

#[test]
fn power_values() {
    assert_eq!(power(2, 10), Some(1024));
    assert_eq!(power(2, -1), Some(0));
    assert_eq!(power(0, 0), Some(1));
    assert_eq!(power(0, 5), Some(0));
    assert_eq!(power(-1, 7), Some(-1));
    assert_eq!(power(-1, 8), Some(1));
    assert_eq!(power(-2, 63), Some(i64::MIN));
    assert_eq!(power(2, 63), None);
    assert_eq!(power(3, 1000), None);
    assert_eq!(power(7, 1), Some(7));
}

#[test]
fn literal_values() {
    assert_eq!(sized_literal_value("h", "FF"), Some(255));
    assert_eq!(sized_literal_value("H", "ff"), Some(255));
    assert_eq!(sized_literal_value("b", "1010"), Some(10));
    assert_eq!(sized_literal_value("o", "7"), Some(7));
    assert_eq!(sized_literal_value("d", "1_000"), Some(1000));
    assert_eq!(sized_literal_value("s", "12"), Some(12));
    assert_eq!(sized_literal_value("b", "xxz0"), None);
    assert_eq!(sized_literal_value("d", "ff"), None);
    assert_eq!(sized_literal_value("o", "8"), None);
    assert_eq!(sized_literal_value("h", "_"), None);
    assert_eq!(sized_literal_value("q", "1"), None);
    assert_eq!(sized_literal_value("h", "7fffffffffffffff"), Some(i64::MAX as u64));
    assert_eq!(sized_literal_value("h", "8000000000000000"), None);
    assert_eq!(sized_literal_text("h", "FF"), "255");
    assert_eq!(sized_literal_text("b", "xxz0"), "unknown");
    assert_eq!(sized_literal_text("d", "0"), "0");
}

#[test]
fn literal_normalization() {
    assert_eq!(parse_sv_number("8'hFF"), "255");
    assert_eq!(parse_sv_number("4'b1010"), "10");
    assert_eq!(parse_sv_number("3'o7"), "7");
    assert_eq!(parse_sv_number("4'bxxz0"), "unknown");
    assert_eq!(parse_sv_number("'d12"), "12");
    assert_eq!(parse_sv_number("WIDTH-1"), "WIDTH-1");
    assert_eq!(parse_sv_number("8'hF_F + 4'B1 - x"), "255 + 1 - x");
    assert_eq!(parse_sv_number(""), "");
}

#[test]
fn unresolvable_literal_has_no_value() {
    assert_eq!(eval_int_expr("4'bxxz0", &no_macros()), None);
    assert_eq!(eval_int_expr("8'hFF", &no_macros()), Some(255));
}

#[test]
fn preprocessing() {
    assert_eq!(preprocess_for_rhai("$clog2(8'd16)"), "clog2(16)");
    assert_eq!(preprocess_for_rhai("2**3"), "2 pow 3");
    assert_eq!(preprocess_for_rhai("a***b"), "a pow *b");
}

#[test]
fn arithmetic() {
    let m = no_macros();
    assert_eq!(eval_int_expr("1+2*3", &m), Some(7));
    assert_eq!(eval_int_expr("(1+2)*3", &m), Some(9));
    assert_eq!(eval_int_expr("7/2", &m), Some(3));
    assert_eq!(eval_int_expr("8-1", &m), Some(7));
    assert_eq!(eval_int_expr("-3+1", &m), Some(-2));
    assert_eq!(eval_int_expr("$clog2(1024)", &m), Some(10));
    assert_eq!(eval_int_expr("clog2(5)", &m), Some(3));
    assert_eq!(eval_int_expr("2 pow 5", &m), Some(32));
    assert_eq!(eval_int_expr("2 pow 64", &m), None);
    assert_eq!(eval_int_expr("1/0", &m), None);
    assert_eq!(eval_int_expr("9223372036854775807 + 1", &m), None);
    assert_eq!(eval_int_expr("UNDEFINED", &m), None);
    assert_eq!(eval_int_expr("1 +", &m), None);
    assert_eq!(eval_int_expr("", &m), None);
    assert_eq!(eval_int_expr("eval(\"1\")", &m), None);
}

#[test]
fn expressions_cannot_loop() {
    let m = no_macros();
    assert_eq!(eval_int_expr("eval(\"loop { }\")", &m), None);
    assert_eq!(eval_int_expr("(|| loop { 1 }).call()", &m), None);
    assert_eq!(eval_int_expr("(|| 1).call()", &m), None);
    assert_eq!(eval_int_expr("(|| while true { 1 }).call()", &m), None);
    assert_eq!(eval_int_expr("if true { 1 } else { 2 }", &m), Some(1));
    assert_eq!(eval_int_expr("timestamp()", &m), None);
}

#[test]
fn macros_enter_the_scope_in_order() {
    let defs = vec![
        Define::new("WIDTH", "8"),
        Define::new("DEPTH", "WIDTH*2"),
        Define::new("BAD", "LATER+1"),
        Define::new("LATER", "3"),
        Define::new("WIDTH", "WIDTH+1"),
    ];
    assert_eq!(eval_int_expr("WIDTH", &defs), Some(9));
    assert_eq!(eval_int_expr("DEPTH", &defs), Some(16));
    assert_eq!(eval_int_expr("BAD", &defs), None);
    assert_eq!(eval_int_expr("LATER", &defs), Some(3));
}

#[test]
fn bounds_of_a_range() {
    assert_eq!(split_range("[7:0]"), Some(("7".to_string(), "0".to_string())));
    assert_eq!(
        split_range("  [ WIDTH-1 : 0 ] "),
        Some(("WIDTH-1".to_string(), "0".to_string()))
    );
    assert_eq!(split_range("[a:b:c]"), Some(("a".to_string(), "b:c".to_string())));
    assert_eq!(split_range("[:]"), Some(("".to_string(), "".to_string())));
    assert_eq!(split_range("[7]"), None);
    assert_eq!(split_range("[]"), None);
    assert_eq!(split_range("["), None);
    assert_eq!(split_range("7:0"), None);
    assert_eq!(split_range("[7:0"), None);
    assert_eq!(split_range(""), None);
}

#[test]
fn width_of_evaluated_bounds() {
    assert_eq!(width_from_bounds(Some(7), Some(0)), Some(8));
    assert_eq!(width_from_bounds(Some(0), Some(7)), Some(8));
    assert_eq!(width_from_bounds(Some(3), Some(3)), Some(1));
    assert_eq!(width_from_bounds(Some(-4), Some(3)), Some(8));
    assert_eq!(width_from_bounds(None, Some(0)), None);
    assert_eq!(width_from_bounds(Some(0), None), None);
    assert_eq!(width_from_bounds(Some(i64::MAX), Some(0)), None);
    assert_eq!(width_from_bounds(Some(i64::MAX - 1), Some(0)), Some(i64::MAX));
    assert_eq!(width_from_bounds(Some(i64::MIN), Some(i64::MAX)), None);
}

#[test]
fn literal_range_has_its_count_as_width() {
    let m = no_macros();
    assert_eq!(compute_packed_range_width_bits("[7:0]", &m), Some(8));
    assert_eq!(compute_packed_range_width_bits("[31:0]", &m), Some(32));
    assert_eq!(compute_packed_range_width_bits("[0:0]", &m), Some(1));
    assert_eq!(compute_packed_range_width_bits("[16-1:0]", &m), Some(16));
}

#[test]
fn swapped_bounds_give_the_same_width() {
    let m = no_macros();
    assert_eq!(compute_packed_range_width_bits("[0:7]", &m), Some(8));
    assert_eq!(
        compute_packed_range_width_bits("[0:31]", &m),
        compute_packed_range_width_bits("[31:0]", &m)
    );
}

#[test]
fn macro_in_a_range() {
    let defs = vec![Define::new("WIDTH", "8")];
    assert_eq!(compute_packed_range_width_bits("[WIDTH-1:0]", &defs), Some(8));
    assert_eq!(compute_packed_range_width_bits("[$clog2(WIDTH):0]", &defs), Some(4));
    assert_eq!(compute_packed_range_width_bits("[8'hFF:8'h0]", &defs), Some(256));
    assert_eq!(compute_packed_range_width_bits("[DEPTH-1:0]", &defs), None);
    assert_eq!(compute_packed_range_width_bits("[WIDTH]", &defs), None);
    assert_eq!(compute_packed_range_width_bits("[4'bxxz0:0]", &defs), None);
}

#[test]
fn exponent_operator() {
    let m = no_macros();
    assert_eq!(eval_int_expr("2**3", &m), Some(8));
    assert_eq!(eval_int_expr("2 ** 10 - 1", &m), Some(1023));
    assert_eq!(eval_int_expr("3*2**2", &m), Some(12));
    assert_eq!(eval_int_expr("2**3**2", &m), Some(64));
    assert_eq!(eval_int_expr("2**(3**2)", &m), Some(512));
    assert_eq!(eval_int_expr("2**-1", &m), Some(0));
    assert_eq!(eval_int_expr("2**64", &m), None);
    assert_eq!(eval_int_expr("2**", &m), None);
    let defs = vec![Define::new("N", "4")];
    assert_eq!(eval_int_expr("2**N", &defs), Some(16));
    assert_eq!(compute_packed_range_width_bits("[2**N-1:0]", &defs), Some(16));
}
