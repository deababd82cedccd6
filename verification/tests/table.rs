use sv2chisel::converter::ChiselConverter;
use sv2chisel::hdl_info::{Define, HdlInfo, Module, Port};

fn sample(prefix: &str) -> HdlInfo {
    let mut t = HdlInfo::new();
    t.add_define(&format!("{}_WIDTH", prefix), "8");
    t.add_module(&format!("{}_top", prefix));
    t.add_ports("clk", "input", "wire", "1", &None);
    t.add_ports("data", "output", "logic", "8", &Some("[7:0]".to_string()));
    t.add_module(&format!("{}_leaf", prefix));
    t.add_ports("q", "inout", "reg", "[N:0]", &Some("[N:0]".to_string()));
    t
}

fn names(t: &HdlInfo) -> Vec<(String, Vec<String>)> {
    t.get_modules()
        .iter()
        .map(|m| (m.get_name(), m.get_ports().iter().map(|p| p.get_name()).collect()))
        .collect()
}

#[test]
fn new_table_is_empty() {
    let t = HdlInfo::new();
    assert_eq!(t.get_modules().len(), 0);
    assert_eq!(t.get_defines().len(), 0);
}

#[test]
fn entries_are_recorded_in_order() {
    let t = sample("a");
    assert_eq!(t.get_defines().len(), 1);
    assert_eq!(t.get_defines()[0].get_name(), "a_WIDTH");
    assert_eq!(t.get_defines()[0].get_value(), "8");
    assert_eq!(
        names(&t),
        vec![
            ("a_top".to_string(), vec!["clk".to_string(), "data".to_string()]),
            ("a_leaf".to_string(), vec!["q".to_string()]),
        ]
    );
    let p = &t.get_modules()[0].get_ports()[1];
    assert_eq!(p.get_direction(), "output");
    assert_eq!(p.get_port_type(), "logic");
    assert_eq!(p.get_width(), "8");
    assert_eq!(p.get_width_expression(), Some("[7:0]".to_string()));
    assert_eq!(t.get_modules()[0].get_ports()[0].get_width_expression(), None);
}

#[test]
fn port_without_a_module_is_not_recorded() {
    let mut t = HdlInfo::new();
    t.add_ports("a", "input", "wire", "1", &None);
    assert_eq!(t.get_modules().len(), 0);
    t.add_module("m");
    t.add_ports("b", "input", "wire", "1", &None);
    assert_eq!(names(&t), vec![("m".to_string(), vec!["b".to_string()])]);
}

#[test]
fn defines_of_one_name_stay_apart() {
    let mut t = HdlInfo::new();
    t.add_define("W", "1");
    t.add_define("W", "2");
    let d: Vec<(String, String)> =
        t.get_defines().iter().map(|d| (d.get_name(), d.get_value())).collect();
    assert_eq!(d, vec![("W".to_string(), "1".to_string()), ("W".to_string(), "2".to_string())]);
}

#[test]
fn merge_appends_the_entries_of_both_files() {
    let first = sample("a");
    let second = sample("b");
    let mut all = HdlInfo::new();
    all.merge_info(&first);
    all.merge_info(&second);
    let d: Vec<String> = all.get_defines().iter().map(|d| d.get_name()).collect();
    assert_eq!(d, vec!["a_WIDTH".to_string(), "b_WIDTH".to_string()]);
    assert_eq!(
        names(&all),
        vec![
            ("a_top".to_string(), vec!["clk".to_string(), "data".to_string()]),
            ("a_leaf".to_string(), vec!["q".to_string()]),
            ("b_top".to_string(), vec!["clk".to_string(), "data".to_string()]),
            ("b_leaf".to_string(), vec!["q".to_string()]),
        ]
    );
    assert_eq!(names(&first).len(), 2);
}

#[test]
fn merge_keeps_modules_of_one_name_apart() {
    let mut all = sample("a");
    let again = sample("a");
    all.merge_info(&again);
    assert_eq!(all.get_modules().len(), 4);
    assert_eq!(all.get_modules()[0].get_name(), "a_top");
    assert_eq!(all.get_modules()[2].get_name(), "a_top");
    assert_eq!(all.get_defines().len(), 2);
}

#[test]
fn merge_of_an_empty_table_changes_nothing() {
    let mut all = sample("a");
    all.merge_info(&HdlInfo::new());
    assert_eq!(names(&all), names(&sample("a")));
}

#[test]
fn copies_hold_the_same() {
    let p = Port::new("a", "input", "wire", "4", &Some("[3:0]".to_string()));
    let q = p.duplicate();
    assert_eq!(q.get_name(), "a");
    assert_eq!(q.get_direction(), "input");
    assert_eq!(q.get_port_type(), "wire");
    assert_eq!(q.get_width(), "4");
    assert_eq!(q.get_width_expression(), Some("[3:0]".to_string()));
    let d = Define::new("N", "1+1").duplicate();
    assert_eq!((d.get_name(), d.get_value()), ("N".to_string(), "1+1".to_string()));
    let mut m = Module::new("m");
    m.push_port(p);
    let c = m.duplicate();
    assert_eq!(c.get_name(), "m");
    assert_eq!(c.get_ports().len(), 1);
    assert_eq!(c.get_ports()[0].get_name(), "a");
}

fn to_json(t: &HdlInfo) -> serde_json::Value {
    let mut defines = Vec::new();
    for d in t.get_defines() {
        let mut o = serde_json::Map::new();
        o.insert("name".to_string(), serde_json::Value::String(d.get_name()));
        o.insert("value".to_string(), serde_json::Value::String(d.get_value()));
        defines.push(serde_json::Value::Object(o));
    }
    let mut modules = Vec::new();
    for m in t.get_modules() {
        let mut ports = Vec::new();
        for p in m.get_ports() {
            let mut o = serde_json::Map::new();
            o.insert("name".to_string(), serde_json::Value::String(p.get_name()));
            o.insert("direction".to_string(), serde_json::Value::String(p.get_direction()));
            o.insert("port_type".to_string(), serde_json::Value::String(p.get_port_type()));
            o.insert("width".to_string(), serde_json::Value::String(p.get_width()));
            o.insert(
                "width_expression".to_string(),
                match p.get_width_expression() {
                    Some(e) => serde_json::Value::String(e),
                    None => serde_json::Value::Null,
                },
            );
            ports.push(serde_json::Value::Object(o));
        }
        let mut o = serde_json::Map::new();
        o.insert("name".to_string(), serde_json::Value::String(m.get_name()));
        o.insert("ports".to_string(), serde_json::Value::Array(ports));
        modules.push(serde_json::Value::Object(o));
    }
    let mut o = serde_json::Map::new();
    o.insert("defines".to_string(), serde_json::Value::Array(defines));
    o.insert("modules".to_string(), serde_json::Value::Array(modules));
    serde_json::Value::Object(o)
}

fn from_json(v: &serde_json::Value) -> HdlInfo {
    let mut t = HdlInfo::new();
    for d in v["defines"].as_array().unwrap() {
        t.add_define(d["name"].as_str().unwrap(), d["value"].as_str().unwrap());
    }
    for m in v["modules"].as_array().unwrap() {
        t.add_module(m["name"].as_str().unwrap());
        for p in m["ports"].as_array().unwrap() {
            t.add_ports(
                p["name"].as_str().unwrap(),
                p["direction"].as_str().unwrap(),
                p["port_type"].as_str().unwrap(),
                p["width"].as_str().unwrap(),
                &p["width_expression"].as_str().map(|e| e.to_string()),
            );
        }
    }
    t
}

#[test]
fn reloaded_table_generates_the_same_text() {
    let table = sample("a");
    let written = serde_json::to_string_pretty(&to_json(&table)).unwrap();
    let reloaded = from_json(&serde_json::from_str(&written).unwrap());
    let inline = ChiselConverter::builder();
    assert_eq!(inline.emit_chisel_string(&reloaded), inline.emit_chisel_string(&table));
    let split = ChiselConverter::builder().split_bundle();
    assert_eq!(split.emit_chisel_string(&reloaded), split.emit_chisel_string(&table));
    assert_eq!(serde_json::to_string_pretty(&to_json(&reloaded)).unwrap(), written);
}
