use vstd::prelude::*;
use vstd::string::StringExecFns;
use crate::value::{Value, Val, chars_of, chars_eq};

verus! {

/// The decode branch that a target type takes.
#[derive(PartialEq, Eq, Structural, Debug, Clone, Copy)]
pub enum Target {
    /// A sequence type: every row, as an array.
    Collection,
    /// A number or a boolean: the first column of the single row.
    Scalar,
    /// A string-like or decimal-like type: the first column of the single row, as text.
    Text,
    /// The generic value type: every row, as an array.
    Generic,
    /// Any other type: the single row as a whole.
    Record,
}

/// Why rows could not be decoded into a target type.
#[derive(Debug)]
pub enum DecodeError {
    /// More rows than a single-row target can hold.
    RowCount { target: String, count: usize },
    /// A value of a kind the target does not take.
    Mismatch { target: String },
    /// The structural conversion into the target failed.
    Conversion { target: String, message: String },
}

/// What a target type is decoded from.
#[derive(Debug)]
pub enum Source {
    /// A value, taken as it is.
    Plain(Value),
    /// A column value, to be turned into its text.
    Text(Value),
}

pub open spec fn starts_with(t: Seq<char>, p: Seq<char>) -> bool {
    p.len() <= t.len() && t.subrange(0, p.len() as int) == p
}

/// Whether a type name names a sequence type.
pub open spec fn is_array_name(t: Seq<char>) -> bool {
    starts_with(t, "alloc::collections::linked_list"@) || starts_with(t, "alloc::vec::Vec<"@)
        || starts_with(t, "["@) || starts_with(t, "&["@)
}

/// Whether a type name names a numeric or boolean type.
pub open spec fn is_scalar_name(t: Seq<char>) -> bool {
    t == "i8"@ || t == "i16"@ || t == "i32"@ || t == "i64"@ || t == "u8"@ || t == "u16"@ || t
        == "u32"@ || t == "u64"@ || t == "f32"@ || t == "f64"@ || t == "serde_json::number::Number"@
        || t == "bool"@
}

/// Whether a type name names a string-like or decimal-like type.
pub open spec fn is_text_name(t: Seq<char>) -> bool {
    t == "alloc::string::String"@ || t == "bigdecimal::BigDecimal"@
}

/// The decode branch of the type named `t`.
pub open spec fn target_kind(t: Seq<char>) -> Target {
    if is_array_name(t) {
        Target::Collection
    } else if is_scalar_name(t) {
        Target::Scalar
    } else if is_text_name(t) {
        Target::Text
    } else if t == "serde_json::value::Value"@ {
        Target::Generic
    } else {
        Target::Record
    }
}

/// Decides `starts_with`.
pub(crate) fn has_prefix(t: &Vec<char>, p: &str) -> (r: bool)
    ensures
        r == starts_with(t@, p@),
{
    let pc = chars_of(p);
    if pc.len() > t.len() {
        return false;
    }
    let mut i: usize = 0;
    while i < pc.len()
        invariant
            pc@ == p@,
            pc.len() <= t.len(),
            i <= pc.len(),
            forall|k: int| 0 <= k < i ==> t@[k] == pc@[k],
        decreases pc.len() - i,
    {
        if t[i] != pc[i] {
            assert(t@.subrange(0, pc@.len() as int)[i as int] != pc@[i as int]);
            return false;
        }
        i = i + 1;
    }
    assert(t@.subrange(0, pc@.len() as int) =~= pc@);
    true
}

/// Whether `t` spells `lit`.
fn name_is(t: &Vec<char>, lit: &str) -> (r: bool)
    ensures
        r == (t@ == lit@),
{
    chars_eq(t, &chars_of(lit))
}

/// Whether the type named `ty` is a sequence type.
pub fn is_array(ty: &str) -> (r: bool)
    ensures
        r == is_array_name(ty@),
{
    let t = chars_of(ty);
    has_prefix(&t, "alloc::collections::linked_list") || has_prefix(&t, "alloc::vec::Vec<")
        || has_prefix(&t, "[") || has_prefix(&t, "&[")
}

/// The decode branch of the type named `ty`.
pub fn target_of(ty: &str) -> (r: Target)
    ensures
        r == target_kind(ty@),
{
    if is_array(ty) {
        return Target::Collection;
    }
    let t = chars_of(ty);
    if name_is(&t, "i8") || name_is(&t, "i16") || name_is(&t, "i32") || name_is(&t, "i64")
        || name_is(&t, "u8") || name_is(&t, "u16") || name_is(&t, "u32") || name_is(&t, "u64")
        || name_is(&t, "f32") || name_is(&t, "f64") || name_is(&t, "serde_json::number::Number")
        || name_is(&t, "bool") {
        Target::Scalar
    } else if name_is(&t, "alloc::string::String") || name_is(&t, "bigdecimal::BigDecimal") {
        Target::Text
    } else if name_is(&t, "serde_json::value::Value") {
        Target::Generic
    } else {
        Target::Record
    }
}

/// The first column of a row, or `Null` where the row is not an object or
/// has no column.
pub open spec fn first_column(row: Value) -> Value {
    if row is Object && row->Object_0.len() > 0 {
        row->Object_0[0].1
    } else {
        Value::Null
    }
}

/// What the type named `ty` is decoded from, given the result rows.
///
/// Sequence types and the generic value type take every row, as an array.
/// Every other type takes at most one row and fails with `RowCount` on more:
/// a scalar or string-like type the row's first column, a record the whole
/// row; no row gives `Null`.
pub fn decode_source(ty: &str, rows: Vec<Value>) -> (r: Result<Source, DecodeError>)
    ensures
        match target_kind(ty@) {
            Target::Collection | Target::Generic => r == Ok::<Source, DecodeError>(Source::Plain(Value::Array(rows))),
            _ => if rows.len() > 1 {
                r is Err && r->Err_0 is RowCount && r->Err_0->RowCount_target@ == ty@
                    && r->Err_0->RowCount_count == rows.len()
            } else if rows.len() == 0 {
                r == Ok::<Source, DecodeError>(Source::Plain(Value::Null))
            } else if target_kind(ty@) == Target::Record {
                r == Ok::<Source, DecodeError>(Source::Plain(rows[0]))
            } else if target_kind(ty@) == Target::Scalar {
                r == Ok::<Source, DecodeError>(Source::Plain(first_column(rows[0])))
            } else {
                r == Ok::<Source, DecodeError>(Source::Text(first_column(rows[0])))
            },
        },
{
    let kind = target_of(ty);
    match kind {
        Target::Collection | Target::Generic => Ok(Source::Plain(Value::Array(rows))),
        _ => {
            if rows.len() > 1 {
                return Err(DecodeError::RowCount { target: String::from_str(ty), count: rows.len() });
            }
            let mut rows = rows;
            if rows.len() == 0 {
                return Ok(Source::Plain(Value::Null));
            }
            let row = rows.remove(0);
            if let Target::Record = kind {
                return Ok(Source::Plain(row));
            }
            let v = match row {
                Value::Object(entries) => {
                    let mut entries = entries;
                    if entries.len() == 0 {
                        Value::Null
                    } else {
                        entries.remove(0).1
                    }
                },
                _ => Value::Null,
            };
            if let Target::Scalar = kind {
                Ok(Source::Plain(v))
            } else {
                Ok(Source::Text(v))
            }
        },
    }
}

/// A type that can be taken from a single column value.
pub trait Decode: Sized {
    /// Whether a value of this kind can be taken.
    spec fn accepts(v: Val) -> bool;

    /// Whether `x` is what `v` decodes to.
    spec fn decodes_to(v: Val, x: Self) -> bool;

    /// Takes the value, or fails with `Mismatch` where its kind is not taken.
    fn decode(value: Value) -> (r: Result<Self, DecodeError>)
        ensures
            r is Ok <==> Self::accepts(value@),
            r is Ok ==> Self::decodes_to(value@, r->Ok_0),
            r is Err ==> r->Err_0 is Mismatch,
    ;
}

impl Decode for i64 {
    open spec fn accepts(v: Val) -> bool {
        v is Int
    }

    open spec fn decodes_to(v: Val, x: i64) -> bool {
        v == Val::Int(x as int)
    }

    fn decode(value: Value) -> (r: Result<i64, DecodeError>) {
        match value {
            Value::Int(n) => Ok(n),
            _ => Err(DecodeError::Mismatch { target: String::from_str("i64") }),
        }
    }
}

impl Decode for bool {
    open spec fn accepts(v: Val) -> bool {
        v is Bool
    }

    open spec fn decodes_to(v: Val, x: bool) -> bool {
        v == Val::Bool(x)
    }

    fn decode(value: Value) -> (r: Result<bool, DecodeError>) {
        match value {
            Value::Bool(b) => Ok(b),
            _ => Err(DecodeError::Mismatch { target: String::from_str("bool") }),
        }
    }
}

impl Decode for String {
    open spec fn accepts(v: Val) -> bool {
        v is Str
    }

    open spec fn decodes_to(v: Val, x: String) -> bool {
        v == Val::Str(x@)
    }

    fn decode(value: Value) -> (r: Result<String, DecodeError>) {
        match value {
            Value::Str(s) => Ok(s),
            _ => Err(DecodeError::Mismatch { target: String::from_str("alloc::string::String") }),
        }
    }
}

} // verus!
