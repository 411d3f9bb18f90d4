use rbatis::eval::EvalError;
use rbatis::mapper::Mapper;
use rbatis::node::{ChooseNode, IfNode, NodeType, RenderError};
use rbatis::value::{value_eq, Env, Value};

fn text(t: &str) -> NodeType {
    NodeType::Text(t.to_string())
}

fn when(test: &str, childs: Vec<NodeType>) -> IfNode {
    IfNode { childs, test: test.to_string() }
}

fn env(pairs: Vec<(&str, Value)>) -> Env {
    Env { vars: pairs.into_iter().map(|(k, v)| (k.to_string(), v)).collect() }
}

fn mapper(name: &str, nodes: Vec<NodeType>) -> Mapper {
    Mapper { statements: vec![(name.to_string(), nodes)] }
}

fn same(a: &[Value], b: &[Value]) -> bool {
    a.len() == b.len() && a.iter().zip(b.iter()).all(|(x, y)| value_eq(x, y))
}

#[test]
fn placeholders_become_binds() {
    let m = mapper("find", vec![text("select * from t where id = ${id} and n = ${n + 1}")]);
    let e = env(vec![("id", Value::Int(5)), ("n", Value::Int(1))]);
    let (sql, binds) = m.render_statement("find", &e).unwrap();
    assert_eq!(sql, "select * from t where id = ? and n = ?");
    assert!(same(&binds, &[Value::Int(5), Value::Int(2)]));
}

#[test]
fn literal_template_round_trips() {
    let m = mapper("all", vec![text("select a, b "), text("from t where x = '$' {y}")]);
    let (sql, binds) = m.render_statement("all", &env(vec![])).unwrap();
    assert_eq!(sql, "select a, b from t where x = '$' {y}");
    assert!(binds.is_empty());
}

#[test]
fn false_guard_renders_nothing() {
    let inner = NodeType::If(when("1 / 0 == 0", vec![text("${boom}")]));
    let m = mapper(
        "q",
        vec![text("select 1"), NodeType::If(when("flag", vec![text(" and ${x}"), inner]))],
    );
    let e = env(vec![("flag", Value::Bool(false)), ("x", Value::Int(3))]);
    let (sql, binds) = m.render_statement("q", &e).unwrap();
    assert_eq!(sql, "select 1");
    assert!(binds.is_empty());
}

#[test]
fn true_guard_renders_children() {
    let m = mapper("q", vec![text("select 1"), NodeType::If(when("x > 2", vec![text(" and x = ${x}")]))]);
    let e = env(vec![("x", Value::Int(3))]);
    let (sql, binds) = m.render_statement("q", &e).unwrap();
    assert_eq!(sql, "select 1 and x = ?");
    assert!(same(&binds, &[Value::Int(3)]));
}

#[test]
fn guard_must_be_boolean() {
    let m = mapper("q", vec![NodeType::If(when("x", vec![text("a")]))]);
    let err = m.render_statement("q", &env(vec![("x", Value::Int(1))])).unwrap_err();
    assert_eq!(err.cause, RenderError::NotBool);
    assert_eq!(err.statement, "q");
}

#[test]
fn guard_errors_abort_the_render() {
    let m = mapper("q", vec![text("select 1"), NodeType::If(when("x && true", vec![text("a")]))]);
    let err = m.render_statement("q", &env(vec![("x", Value::Int(1))])).unwrap_err();
    assert_eq!(err.cause, RenderError::Eval(EvalError::TypeMismatch));
}

#[test]
fn unclosed_placeholder() {
    let m = mapper("q", vec![text("select ${x")]);
    let err = m.render_statement("q", &env(vec![])).unwrap_err();
    assert_eq!(err.cause, RenderError::UnclosedPlaceholder);
}

#[test]
fn unknown_statement() {
    let m = mapper("q", vec![text("select 1")]);
    let err = m.render_statement("other", &env(vec![])).unwrap_err();
    assert_eq!(err.cause, RenderError::UnknownStatement);
    assert_eq!(err.statement, "other");
}

#[test]
fn rendering_twice_gives_the_same_output() {
    let m = mapper("q", vec![text("select ${a}, ${b}"), NodeType::If(when("a == 1", vec![text(" x")]))]);
    let e = env(vec![("a", Value::Int(1)), ("b", Value::Str("s".to_string()))]);
    let (sql1, binds1) = m.render_statement("q", &e).unwrap();
    let (sql2, binds2) = m.render_statement("q", &e).unwrap();
    assert_eq!(sql1, "select ?, ? x");
    assert_eq!(sql1, sql2);
    assert!(same(&binds1, &binds2));
}

#[test]
fn choose_takes_only_the_first_true_branch() {
    let c = ChooseNode {
        whens: vec![
            when("x > 10", vec![text("big")]),
            when("x > 1", vec![text("mid ${x}")]),
            when("x > 0", vec![text("small")]),
        ],
        otherwise: vec![text("none")],
    };
    let m = mapper("q", vec![NodeType::Choose(c)]);
    let (sql, binds) = m.render_statement("q", &env(vec![("x", Value::Int(5))])).unwrap();
    assert_eq!(sql, "mid ?");
    assert!(same(&binds, &[Value::Int(5)]));
}

#[test]
fn choose_falls_back_to_otherwise() {
    let c = ChooseNode { whens: vec![when("x > 10", vec![text("big")])], otherwise: vec![text("none")] };
    let m = mapper("q", vec![NodeType::Choose(c)]);
    let (sql, _) = m.render_statement("q", &env(vec![("x", Value::Int(5))])).unwrap();
    assert_eq!(sql, "none");
    let c = ChooseNode { whens: vec![when("x > 10", vec![text("big")])], otherwise: vec![] };
    let m = mapper("q", vec![NodeType::Choose(c)]);
    let (sql, _) = m.render_statement("q", &env(vec![("x", Value::Int(5))])).unwrap();
    assert_eq!(sql, "");
}

#[test]
fn if_node_eval_appends_to_the_accumulators() {
    let f = when("ok", vec![text("a = ${v}")]);
    let e = env(vec![("ok", Value::Bool(true)), ("v", Value::Int(9))]);
    let mut out: Vec<char> = "x ".chars().collect();
    let mut binds = vec![Value::Null];
    f.eval(&e, &mut out, &mut binds).unwrap();
    assert_eq!(out.iter().collect::<String>(), "x a = ?");
    assert!(same(&binds, &[Value::Null, Value::Int(9)]));
}

fn foreach(childs: Vec<NodeType>, sep: &str) -> NodeType {
    NodeType::Foreach(rbatis::node::ForeachNode {
        childs,
        collection: "ids".to_string(),
        item: "id".to_string(),
        index: "i".to_string(),
        open: "(".to_string(),
        close: ")".to_string(),
        separator: sep.to_string(),
    })
}

#[test]
fn foreach_binds_each_element() {
    let m = mapper("q", vec![text("select * from t where id in "), foreach(vec![text("${id}")], ", ")]);
    let e = Env { vars: vec![("ids".to_string(), Value::Array(vec![Value::Int(4), Value::Int(5), Value::Int(6)]))] };
    let (sql, binds) = m.render_statement("q", &e).unwrap();
    assert_eq!(sql, "select * from t where id in (?, ?, ?)");
    assert!(same(&binds, &[Value::Int(4), Value::Int(5), Value::Int(6)]));
}

#[test]
fn foreach_index_and_scope_restore() {
    let m = mapper(
        "q",
        vec![foreach(vec![NodeType::If(when("i > 0", vec![text("${id + i}")]))], ","), text(" ${id}")],
    );
    let e = Env {
        vars: vec![
            ("id".to_string(), Value::Int(100)),
            ("ids".to_string(), Value::Array(vec![Value::Int(1), Value::Int(2)])),
        ],
    };
    let (sql, binds) = m.render_statement("q", &e).unwrap();
    assert_eq!(sql, "(,?) ?");
    assert!(same(&binds, &[Value::Int(3), Value::Int(100)]));
}

#[test]
fn foreach_over_no_list_fails() {
    let m = mapper("q", vec![foreach(vec![text("x")], ",")]);
    let err = m.render_statement("q", &env(vec![])).unwrap_err();
    assert_eq!(err.cause, RenderError::BadCollection);
    let err = m.render_statement("q", &env(vec![("ids", Value::Int(1))])).unwrap_err();
    assert_eq!(err.cause, RenderError::BadCollection);
    let e = Env { vars: vec![("ids".to_string(), Value::Array(vec![]))] };
    let (sql, binds) = m.render_statement("q", &e).unwrap();
    assert_eq!(sql, "()");
    assert!(binds.is_empty());
}

#[test]
fn foreach_with_one_element_has_no_separator() {
    let m = mapper("q", vec![foreach(vec![text("x")], ",")]);
    let e = env(vec![("ids", Value::Array(vec![Value::Int(1)])), ("z", Value::Int(0))]);
    let (sql, _) = m.render_statement("q", &e).unwrap();
    assert_eq!(sql, "(x)");
}

#[test]
fn failed_render_leaves_the_buffers_unchanged() {
    let f = when("ok", vec![text("a = ${v} and ${1 / 0}")]);
    let e = env(vec![("ok", Value::Bool(true)), ("v", Value::Int(9))]);
    let mut out: Vec<char> = "x ".chars().collect();
    let mut binds = vec![Value::Null];
    assert_eq!(f.eval(&e, &mut out, &mut binds).unwrap_err(), RenderError::Eval(EvalError::DivisionByZero));
    assert_eq!(out.iter().collect::<String>(), "x ");
    assert!(same(&binds, &[Value::Null]));
    let g = when("v", vec![text("a")]);
    assert_eq!(g.eval(&e, &mut out, &mut binds).unwrap_err(), RenderError::NotBool);
    assert_eq!(out.iter().collect::<String>(), "x ");
    assert!(same(&binds, &[Value::Null]));
}

#[test]
fn raw_substitution_inserts_string_text() {
    let m = mapper("q", vec![text("select * from #{table} where id = ${id}")]);
    let e = env(vec![("table", Value::Str("users".to_string())), ("id", Value::Int(2))]);
    let (sql, binds) = m.render_statement("q", &e).unwrap();
    assert_eq!(sql, "select * from users where id = ?");
    assert!(same(&binds, &[Value::Int(2)]));
    let err = m.render_statement("q", &env(vec![("table", Value::Int(1))])).unwrap_err();
    assert_eq!(err.cause, RenderError::RawNotText);
    let m = mapper("q", vec![text("select #{t")]);
    assert_eq!(m.render_statement("q", &env(vec![])).unwrap_err().cause, RenderError::UnclosedPlaceholder);
}
