use rbatis::node::{ChooseNode, IfNode, NodeType};

fn text(t: &str) -> NodeType {
    NodeType::Text(t.to_string())
}

#[test]
fn if_node_prints_nested() {
    let f = IfNode { childs: vec![text("a = 1")], test: "x > 1".to_string() };
    assert_eq!(f.print(0), "\n<if  test=\"x > 1\" >\n  a = 1\n</if>");
    assert_eq!(f.print(1), "\n  <if  test=\"x > 1\" >\n    a = 1\n  </if>");
}

#[test]
fn choose_prints_branches() {
    let c = ChooseNode {
        whens: vec![IfNode { childs: vec![text("b")], test: "t".to_string() }],
        otherwise: vec![text("c")],
    };
    assert_eq!(
        NodeType::Choose(c).print(0),
        "\n<choose>\n  <when test=\"t\">\n    b\n  </when>\n  <otherwise>\n    c\n  </otherwise>\n</choose>"
    );
}

#[test]
fn text_prints_on_its_own_line() {
    assert_eq!(text("select 1").print(2), "\n    select 1");
}

#[test]
fn foreach_prints_its_binding() {
    let f = rbatis::node::ForeachNode {
        childs: vec![text("${x}")],
        collection: "xs".to_string(),
        item: "x".to_string(),
        index: "i".to_string(),
        open: "(".to_string(),
        close: ")".to_string(),
        separator: ",".to_string(),
    };
    assert_eq!(
        NodeType::Foreach(f).print(0),
        "\n<foreach collection=\"xs\" item=\"x\" index=\"i\">\n  ${x}\n</foreach>"
    );
}
