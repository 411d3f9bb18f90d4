use rbatis::eval::{Eval, EvalError};
use rbatis::expr::evaluate;
use rbatis::value::{value_eq, Env, Value};

fn s(x: &str) -> Value {
    Value::Str(x.to_string())
}

fn env(pairs: Vec<(&str, Value)>) -> Env {
    Env { vars: pairs.into_iter().map(|(k, v)| (k.to_string(), v)).collect() }
}

fn is(v: Result<Value, EvalError>, want: Value) -> bool {
    match v {
        Ok(v) => value_eq(&v, &want),
        Err(_) => false,
    }
}

#[test]
fn int_arithmetic_is_exact() {
    assert!(is(Eval(&Value::Int(7), &Value::Int(2), "+"), Value::Int(9)));
    assert!(is(Eval(&Value::Int(7), &Value::Int(2), "-"), Value::Int(5)));
    assert!(is(Eval(&Value::Int(7), &Value::Int(-3), "*"), Value::Int(-21)));
    assert!(is(Eval(&Value::Int(7), &Value::Int(2), "/"), Value::Int(3)));
    assert!(is(Eval(&Value::Int(-7), &Value::Int(2), "/"), Value::Int(-3)));
    assert!(is(Eval(&Value::Int(i64::MIN), &Value::Int(1), "/"), Value::Int(i64::MIN)));
}

#[test]
fn int_comparisons() {
    assert!(is(Eval(&Value::Int(3), &Value::Int(2), ">"), Value::Bool(true)));
    assert!(is(Eval(&Value::Int(3), &Value::Int(3), ">="), Value::Bool(true)));
    assert!(is(Eval(&Value::Int(3), &Value::Int(2), "<"), Value::Bool(false)));
    assert!(is(Eval(&Value::Int(2), &Value::Int(3), "<="), Value::Bool(true)));
}

#[test]
fn division_by_zero_is_an_error() {
    assert_eq!(Eval(&Value::Int(1), &Value::Int(0), "/").unwrap_err(), EvalError::DivisionByZero);
}

#[test]
fn overflow_is_an_error() {
    assert_eq!(Eval(&Value::Int(i64::MAX), &Value::Int(1), "+").unwrap_err(), EvalError::Overflow);
    assert_eq!(Eval(&Value::Int(i64::MIN), &Value::Int(-1), "/").unwrap_err(), EvalError::Overflow);
    assert_eq!(Eval(&Value::Int(i64::MIN), &Value::Int(1), "-").unwrap_err(), EvalError::Overflow);
}

#[test]
fn float_operands_are_left_to_the_caller() {
    let one = Value::Float(1.0f64.to_bits());
    assert_eq!(Eval(&one, &Value::Int(2), "+").unwrap_err(), EvalError::FloatOperand);
    assert_eq!(Eval(&one, &one, "<").unwrap_err(), EvalError::FloatOperand);
    assert!(is(Eval(&one, &Value::Float(1.0f64.to_bits()), "=="), Value::Bool(true)));
}

#[test]
fn logic_requires_booleans() {
    assert!(is(Eval(&Value::Bool(true), &Value::Bool(false), "&&"), Value::Bool(false)));
    assert!(is(Eval(&Value::Bool(true), &Value::Bool(false), "||"), Value::Bool(true)));
    assert_eq!(Eval(&Value::Int(1), &Value::Bool(true), "&&").unwrap_err(), EvalError::TypeMismatch);
    assert_eq!(Eval(&Value::Bool(true), &Value::Null, "||").unwrap_err(), EvalError::TypeMismatch);
}

#[test]
fn equality_is_structural() {
    assert!(is(Eval(&s("a"), &s("a"), "=="), Value::Bool(true)));
    assert!(is(Eval(&s("a"), &s("b"), "!="), Value::Bool(true)));
    assert!(is(Eval(&Value::Int(1), &s("1"), "=="), Value::Bool(false)));
    assert!(is(Eval(&Value::Null, &Value::Null, "=="), Value::Bool(true)));
}

#[test]
fn non_numbers_give_null_or_mismatch() {
    assert!(is(Eval(&s("a"), &s("b"), ">"), Value::Null));
    assert!(is(Eval(&s("a"), &Value::Int(1), "-"), Value::Null));
    assert!(is(Eval(&Value::Null, &Value::Int(1), "*"), Value::Null));
    assert!(is(Eval(&s("ab"), &s("cd"), "+"), s("abcd")));
    assert_eq!(Eval(&s("ab"), &Value::Int(1), "+").unwrap_err(), EvalError::TypeMismatch);
}

#[test]
fn unknown_operator() {
    assert_eq!(Eval(&Value::Int(1), &Value::Int(1), "%").unwrap_err(), EvalError::UnknownOperator);
    assert_eq!(Eval(&Value::Int(1), &Value::Int(1), "===").unwrap_err(), EvalError::UnknownOperator);
}

#[test]
fn and_with_int_operand_is_a_type_mismatch() {
    let e = env(vec![("a", Value::Int(1)), ("b", Value::Bool(true))]);
    assert_eq!(evaluate("a && b", &e).unwrap_err(), EvalError::TypeMismatch);
    let e = env(vec![("a", Value::Bool(true)), ("b", Value::Bool(true))]);
    assert!(is(evaluate("a && b", &e), Value::Bool(true)));
}

#[test]
fn expressions_fold_left_to_right() {
    let e = env(vec![("x", Value::Int(2))]);
    assert!(is(evaluate("x + 3 * 2", &e), Value::Int(10)));
    assert!(is(evaluate("x+3>4", &e), Value::Bool(true)));
    assert!(is(evaluate("  x  ", &e), Value::Int(2)));
}

#[test]
fn expression_literals_and_lookup() {
    let e = env(vec![("name", s("shadowed")), ("name", s("bob"))]);
    assert!(is(evaluate("name == 'bob'", &e), Value::Bool(true)));
    assert!(is(evaluate("missing == null", &e), Value::Bool(true)));
    assert!(is(evaluate("true || false", &e), Value::Bool(true)));
    assert!(is(evaluate("'a b' + name", &e), s("a bbob")));
    assert!(is(evaluate("9223372036854775807", &e), Value::Int(i64::MAX)));
}

#[test]
fn malformed_expressions() {
    let e = env(vec![]);
    assert_eq!(evaluate("", &e).unwrap_err(), EvalError::ParseError);
    assert_eq!(evaluate("1 +", &e).unwrap_err(), EvalError::ParseError);
    assert_eq!(evaluate("1 2", &e).unwrap_err(), EvalError::ParseError);
    assert_eq!(evaluate("'open", &e).unwrap_err(), EvalError::ParseError);
    assert_eq!(evaluate("9223372036854775808", &e).unwrap_err(), EvalError::ParseError);
    assert_eq!(evaluate("1 <> 2", &e).unwrap_err(), EvalError::UnknownOperator);
    assert_eq!(evaluate("1 / 0", &e).unwrap_err(), EvalError::DivisionByZero);
}

#[test]
fn arrays_and_objects_compare_structurally() {
    let a = Value::Array(vec![Value::Int(1), s("x")]);
    let b = Value::Array(vec![Value::Int(1), s("x")]);
    let c = Value::Array(vec![Value::Int(1)]);
    assert!(is(Eval(&a, &b, "=="), Value::Bool(true)));
    assert!(is(Eval(&a, &c, "!="), Value::Bool(true)));
    let o1 = Value::Object(vec![("k".to_string(), a)]);
    let o2 = Value::Object(vec![("k".to_string(), b)]);
    let o3 = Value::Object(vec![("j".to_string(), c)]);
    assert!(is(Eval(&o1, &o2, "=="), Value::Bool(true)));
    assert!(is(Eval(&o1, &o3, "=="), Value::Bool(false)));
    assert!(is(Eval(&o1, &Value::Null, ">"), Value::Null));
}

#[test]
fn float_division_by_zero_is_an_error() {
    let zero = Value::Float(0.0f64.to_bits());
    let neg_zero = Value::Float((-0.0f64).to_bits());
    assert_eq!(Eval(&Value::Float(1.5f64.to_bits()), &zero, "/").unwrap_err(), EvalError::DivisionByZero);
    assert_eq!(Eval(&Value::Int(3), &neg_zero, "/").unwrap_err(), EvalError::DivisionByZero);
    assert_eq!(Eval(&Value::Float(1.5f64.to_bits()), &Value::Int(0), "/").unwrap_err(), EvalError::DivisionByZero);
    assert_eq!(Eval(&Value::Float(1.5f64.to_bits()), &Value::Int(2), "/").unwrap_err(), EvalError::FloatOperand);
}
