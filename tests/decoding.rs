use rbatis::decode::{decode_source, is_array, target_of, Decode, DecodeError, Source, Target};
use rbatis::value::{value_eq, Value};

fn row(pairs: Vec<(&str, Value)>) -> Value {
    Value::Object(pairs.into_iter().map(|(k, v)| (k.to_string(), v)).collect())
}

#[test]
fn sequence_type_names() {
    assert!(is_array("alloc::vec::Vec<i64>"));
    assert!(is_array("alloc::collections::linked_list::LinkedList<i64>"));
    assert!(is_array("[u8; 4]"));
    assert!(is_array("&[u8]"));
    assert!(!is_array("i64"));
    assert!(!is_array("alloc::vec::Vec"));
}

#[test]
fn targets_by_name() {
    assert_eq!(target_of("i64"), Target::Scalar);
    assert_eq!(target_of("bool"), Target::Scalar);
    assert_eq!(target_of("f64"), Target::Scalar);
    assert_eq!(target_of("alloc::string::String"), Target::Text);
    assert_eq!(target_of("bigdecimal::BigDecimal"), Target::Text);
    assert_eq!(target_of("serde_json::value::Value"), Target::Generic);
    assert_eq!(target_of("alloc::vec::Vec<app::Point>"), Target::Collection);
    assert_eq!(target_of("app::Point"), Target::Record);
}

#[test]
fn no_rows_into_a_vec_is_an_empty_array() {
    match decode_source("alloc::vec::Vec<i64>", vec![]).unwrap() {
        Source::Plain(v) => assert!(value_eq(&v, &Value::Array(vec![]))),
        other => panic!("unexpected {:?}", other),
    }
}

#[test]
fn two_rows_into_a_scalar_is_a_row_count_error() {
    let rows = vec![row(vec![("n", Value::Int(1))]), row(vec![("n", Value::Int(2))])];
    match decode_source("i64", rows).unwrap_err() {
        DecodeError::RowCount { target, count } => {
            assert_eq!(target, "i64");
            assert_eq!(count, 2);
        }
        other => panic!("unexpected {:?}", other),
    }
}

#[test]
fn one_row_into_a_record_is_the_whole_row() {
    let rows = vec![row(vec![("x", Value::Int(1)), ("y", Value::Int(2))])];
    match decode_source("app::Point", rows).unwrap() {
        Source::Plain(v) => assert!(value_eq(&v, &row(vec![("x", Value::Int(1)), ("y", Value::Int(2))]))),
        other => panic!("unexpected {:?}", other),
    }
}

#[test]
fn nested_columns_pass_through() {
    let tags = Value::Array(vec![Value::Str("a".to_string()), Value::Str("b".to_string())]);
    let rows = vec![row(vec![("id", Value::Int(1)), ("tags", tags)])];
    match decode_source("app::Tagged", rows).unwrap() {
        Source::Plain(Value::Object(entries)) => {
            assert_eq!(entries[1].0, "tags");
            assert!(matches!(&entries[1].1, Value::Array(items) if items.len() == 2));
        }
        other => panic!("unexpected {:?}", other),
    }
}

#[test]
fn one_row_into_a_scalar_is_its_first_column() {
    let rows = vec![row(vec![("n", Value::Int(7)), ("m", Value::Int(8))])];
    match decode_source("i64", rows).unwrap() {
        Source::Plain(v) => assert!(value_eq(&v, &Value::Int(7))),
        other => panic!("unexpected {:?}", other),
    }
    let rows = vec![row(vec![("s", Value::Int(7))])];
    match decode_source("alloc::string::String", rows).unwrap() {
        Source::Text(v) => assert!(value_eq(&v, &Value::Int(7))),
        other => panic!("unexpected {:?}", other),
    }
}

#[test]
fn empty_cases_give_null() {
    assert!(matches!(decode_source("i64", vec![]).unwrap(), Source::Plain(Value::Null)));
    assert!(matches!(decode_source("app::Point", vec![]).unwrap(), Source::Plain(Value::Null)));
    assert!(matches!(decode_source("i64", vec![row(vec![])]).unwrap(), Source::Plain(Value::Null)));
    assert!(matches!(decode_source("i64", vec![Value::Int(3)]).unwrap(), Source::Plain(Value::Null)));
}

#[test]
fn generic_value_takes_every_row() {
    let rows = vec![row(vec![("n", Value::Int(1))]), row(vec![("n", Value::Int(2))])];
    match decode_source("serde_json::value::Value", rows).unwrap() {
        Source::Plain(Value::Array(rs)) => assert_eq!(rs.len(), 2),
        other => panic!("unexpected {:?}", other),
    }
}

#[test]
fn scalar_decoding() {
    assert_eq!(i64::decode(Value::Int(4)).unwrap(), 4);
    assert!(matches!(i64::decode(Value::Null), Err(DecodeError::Mismatch { .. })));
    assert!(bool::decode(Value::Bool(true)).unwrap());
    assert!(matches!(bool::decode(Value::Int(1)), Err(DecodeError::Mismatch { .. })));
    assert_eq!(String::decode(Value::Str("a".to_string())).unwrap(), "a");
    assert!(matches!(String::decode(Value::Int(1)), Err(DecodeError::Mismatch { .. })));
}
