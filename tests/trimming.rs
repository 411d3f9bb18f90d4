use rbatis::mapper::Mapper;
use rbatis::node::{IfNode, NodeType, TrimNode};
use rbatis::value::{value_eq, Env, Value};

fn text(t: &str) -> NodeType {
    NodeType::Text(t.to_string())
}

fn guarded(test: &str, t: &str) -> NodeType {
    NodeType::If(IfNode { childs: vec![text(t)], test: test.to_string() })
}

fn strings(v: &[&str]) -> Vec<String> {
    v.iter().map(|s| s.to_string()).collect()
}

fn where_node() -> NodeType {
    NodeType::Trim(TrimNode {
        childs: vec![guarded("a != null", " AND a = ${a}"), guarded("b != null", " AND b = ${b} ")],
        prefix: " WHERE ".to_string(),
        suffix: String::new(),
        prefix_overrides: strings(&["AND ", "OR "]),
        suffix_overrides: vec![],
    })
}

fn render(nodes: Vec<NodeType>, vars: Vec<(&str, Value)>) -> (String, Vec<Value>) {
    let m = Mapper { statements: vec![("q".to_string(), nodes)] };
    let env = Env { vars: vars.into_iter().map(|(k, v)| (k.to_string(), v)).collect() };
    m.render_statement("q", &env).unwrap()
}

#[test]
fn where_drops_the_leading_and() {
    let (sql, binds) = render(vec![text("select * from t"), where_node()], vec![("a", Value::Int(1)), ("b", Value::Int(2))]);
    assert_eq!(sql, "select * from t WHERE a = ? AND b = ?");
    assert_eq!(binds.len(), 2);
    assert!(value_eq(&binds[0], &Value::Int(1)) && value_eq(&binds[1], &Value::Int(2)));
    let (sql, _) = render(vec![text("select * from t"), where_node()], vec![("b", Value::Int(2))]);
    assert_eq!(sql, "select * from t WHERE b = ?");
}

#[test]
fn empty_trim_renders_nothing() {
    let (sql, binds) = render(vec![text("select * from t"), where_node()], vec![]);
    assert_eq!(sql, "select * from t");
    assert!(binds.is_empty());
}

#[test]
fn set_drops_the_trailing_comma() {
    let set = NodeType::Trim(TrimNode {
        childs: vec![guarded("a != null", "a = ${a},"), guarded("b != null", " b = ${b},")],
        prefix: " SET ".to_string(),
        suffix: " ".to_string(),
        prefix_overrides: vec![],
        suffix_overrides: strings(&[","]),
    });
    let (sql, _) = render(vec![text("update t"), set, text("where id = 1")], vec![("a", Value::Int(1)), ("b", Value::Int(2))]);
    assert_eq!(sql, "update t SET a = ?, b = ? where id = 1");
}

#[test]
fn trim_prints_its_frame() {
    let t = TrimNode { childs: vec![text("x")], prefix: "P".to_string(), suffix: "S".to_string(), prefix_overrides: vec![], suffix_overrides: vec![] };
    assert_eq!(NodeType::Trim(t).print(0), "\n<trim prefix=\"P\" suffix=\"S\">\n  x\n</trim>");
}
