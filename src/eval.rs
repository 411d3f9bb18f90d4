use vstd::prelude::*;
use crate::value::{Value, Val, value_eq, chars_of};

verus! {

/// Why an expression could not be evaluated.
#[derive(PartialEq, Eq, Structural, Debug, Clone, Copy)]
pub enum EvalError {
    /// An operand has a kind the operator does not take.
    TypeMismatch,
    /// An integer division by zero.
    DivisionByZero,
    /// The operator text names no operator.
    UnknownOperator,
    /// The expression text is not an operand followed by operator-operand pairs.
    ParseError,
    /// An integer result outside the range of `i64`.
    Overflow,
    /// A numeric operator met a `Float` operand.
    FloatOperand,
}

/// The binary operators of the expression language.
#[derive(PartialEq, Eq, Structural, Debug, Clone, Copy)]
pub enum Op {
    And,
    Or,
    Eq,
    Ne,
    Ge,
    Le,
    Gt,
    Lt,
    Add,
    Sub,
    Mul,
    Div,
}

/// The operator spelled by `t`, if any.
pub open spec fn op_of_text(t: Seq<char>) -> Option<Op> {
    if t == seq!['&', '&'] {
        Some(Op::And)
    } else if t == seq!['|', '|'] {
        Some(Op::Or)
    } else if t == seq!['=', '='] {
        Some(Op::Eq)
    } else if t == seq!['!', '='] {
        Some(Op::Ne)
    } else if t == seq!['>', '='] {
        Some(Op::Ge)
    } else if t == seq!['<', '='] {
        Some(Op::Le)
    } else if t == seq!['>'] {
        Some(Op::Gt)
    } else if t == seq!['<'] {
        Some(Op::Lt)
    } else if t == seq!['+'] {
        Some(Op::Add)
    } else if t == seq!['-'] {
        Some(Op::Sub)
    } else if t == seq!['*'] {
        Some(Op::Mul)
    } else if t == seq!['/'] {
        Some(Op::Div)
    } else {
        None
    }
}

/// Whether `x` fits in an `i64`.
pub open spec fn in_i64(x: int) -> bool {
    i64::MIN <= x <= i64::MAX
}

/// An integer result, or `Overflow` when it does not fit in an `i64`.
pub open spec fn int_result(x: int) -> Result<Val, EvalError> {
    if in_i64(x) {
        Ok(Val::Int(x))
    } else {
        Err(EvalError::Overflow)
    }
}

pub open spec fn abs(x: int) -> int {
    if x < 0 {
        -x
    } else {
        x
    }
}

/// Integer division rounding toward zero.
pub open spec fn trunc_div(a: int, b: int) -> int {
    if (a < 0) == (b < 0) {
        abs(a) / abs(b)
    } else {
        -(abs(a) / abs(b))
    }
}

pub open spec fn is_number(v: Val) -> bool {
    v is Int || v is Float
}

/// Whether a number is zero: the integer 0, or a float of either sign whose
/// bits other than the sign are all clear.
pub open spec fn is_zero(v: Val) -> bool {
    (v is Int && v->Int_0 == 0) || (v is Float && v->Float_0 & 0x7fff_ffff_ffff_ffffu64 == 0)
}

/// What a relational or arithmetic operator gives on operands that are not
/// both integers: `FloatOperand` where both are numbers, else `other`.
pub open spec fn non_int(l: Val, r: Val, other: Result<Val, EvalError>) -> Result<Val, EvalError> {
    if is_number(l) && is_number(r) {
        Err(EvalError::FloatOperand)
    } else {
        other
    }
}

/// The result of applying `op` to the operands `l` and `r`.
///
/// Logical operators take two booleans; equality takes any kinds; relational
/// operators and `-`, `*`, `/` give `Null` on operands that are not numbers;
/// `+` adds two integers or joins two strings. Division by a zero number
/// fails; division of two integers rounds toward zero, a policy of this
/// library (the quotient stays an integer), and an integer result outside
/// `i64` is an `Overflow`.
pub open spec fn apply(op: Op, l: Val, r: Val) -> Result<Val, EvalError> {
    match op {
        Op::And => if l is Bool && r is Bool {
            Ok(Val::Bool(l->Bool_0 && r->Bool_0))
        } else {
            Err(EvalError::TypeMismatch)
        },
        Op::Or => if l is Bool && r is Bool {
            Ok(Val::Bool(l->Bool_0 || r->Bool_0))
        } else {
            Err(EvalError::TypeMismatch)
        },
        Op::Eq => Ok(Val::Bool(l == r)),
        Op::Ne => Ok(Val::Bool(l != r)),
        Op::Ge => if l is Int && r is Int {
            Ok(Val::Bool(l->Int_0 >= r->Int_0))
        } else {
            non_int(l, r, Ok(Val::Null))
        },
        Op::Le => if l is Int && r is Int {
            Ok(Val::Bool(l->Int_0 <= r->Int_0))
        } else {
            non_int(l, r, Ok(Val::Null))
        },
        Op::Gt => if l is Int && r is Int {
            Ok(Val::Bool(l->Int_0 > r->Int_0))
        } else {
            non_int(l, r, Ok(Val::Null))
        },
        Op::Lt => if l is Int && r is Int {
            Ok(Val::Bool(l->Int_0 < r->Int_0))
        } else {
            non_int(l, r, Ok(Val::Null))
        },
        Op::Add => if l is Int && r is Int {
            int_result(l->Int_0 + r->Int_0)
        } else if l is Str && r is Str {
            Ok(Val::Str(l->Str_0 + r->Str_0))
        } else {
            non_int(l, r, Err(EvalError::TypeMismatch))
        },
        Op::Sub => if l is Int && r is Int {
            int_result(l->Int_0 - r->Int_0)
        } else {
            non_int(l, r, Ok(Val::Null))
        },
        Op::Mul => if l is Int && r is Int {
            int_result(l->Int_0 * r->Int_0)
        } else {
            non_int(l, r, Ok(Val::Null))
        },
        Op::Div => if is_number(l) && is_number(r) && is_zero(r) {
            Err(EvalError::DivisionByZero)
        } else if l is Int && r is Int {
            int_result(trunc_div(l->Int_0, r->Int_0))
        } else {
            non_int(l, r, Ok(Val::Null))
        },
    }
}

/// The view of an evaluation result.
pub open spec fn result_view(r: Result<Value, EvalError>) -> Result<Val, EvalError> {
    match r {
        Ok(v) => Ok(v@),
        Err(e) => Err(e),
    }
}

/// The operator spelled by `t`.
pub fn op_from_chars(t: &Vec<char>) -> (r: Option<Op>)
    ensures
        r == op_of_text(t@),
{
    if t.len() == 1 {
        let c = t[0];
        let r = if c == '>' {
            Some(Op::Gt)
        } else if c == '<' {
            Some(Op::Lt)
        } else if c == '+' {
            Some(Op::Add)
        } else if c == '-' {
            Some(Op::Sub)
        } else if c == '*' {
            Some(Op::Mul)
        } else if c == '/' {
            Some(Op::Div)
        } else {
            None
        };
        assert(t@ =~= seq![c]);
        r
    } else if t.len() == 2 {
        let c0 = t[0];
        let c1 = t[1];
        assert(t@ =~= seq![c0, c1]);
        if c0 == '&' && c1 == '&' {
            Some(Op::And)
        } else if c0 == '|' && c1 == '|' {
            Some(Op::Or)
        } else if c0 == '=' && c1 == '=' {
            Some(Op::Eq)
        } else if c0 == '!' && c1 == '=' {
            Some(Op::Ne)
        } else if c0 == '>' && c1 == '=' {
            Some(Op::Ge)
        } else if c0 == '<' && c1 == '=' {
            Some(Op::Le)
        } else {
            None
        }
    } else {
        None
    }
}

/// The magnitude of an integer.
fn magnitude(a: i64) -> (r: u64)
    ensures
        r as int == abs(a as int),
{
    if a >= 0 {
        a as u64
    } else if a == i64::MIN {
        9223372036854775808u64
    } else {
        (-a) as u64
    }
}

/// Integer division rounding toward zero, or `Overflow`.
fn div_ints(a: i64, b: i64) -> (r: Result<Value, EvalError>)
    requires
        b != 0,
    ensures
        result_view(r) == int_result(trunc_div(a as int, b as int)),
{
    let q: u64 = magnitude(a) / magnitude(b);
    if (a < 0) == (b < 0) {
        if q > i64::MAX as u64 {
            Err(EvalError::Overflow)
        } else {
            Ok(Value::Int(q as i64))
        }
    } else {
        if q > 9223372036854775808u64 {
            Err(EvalError::Overflow)
        } else if q == 9223372036854775808u64 {
            Ok(Value::Int(i64::MIN))
        } else {
            Ok(Value::Int(-(q as i64)))
        }
    }
}

fn is_numeric(v: &Value) -> (r: bool)
    ensures
        r == is_number(v@),
{
    match v {
        Value::Int(_) => true,
        Value::Float(_) => true,
        _ => false,
    }
}

fn zero_number(v: &Value) -> (r: bool)
    ensures
        r == is_zero(v@),
{
    match v {
        Value::Int(n) => *n == 0,
        Value::Float(bits) => *bits & 0x7fff_ffff_ffff_ffffu64 == 0,
        _ => false,
    }
}

/// `FloatOperand` where both operands are numbers, else `other`.
fn fallback(l: &Value, r: &Value, other: Result<Value, EvalError>) -> (res: Result<Value, EvalError>)
    ensures
        result_view(res) == non_int(l@, r@, result_view(other)),
{
    if is_numeric(l) && is_numeric(r) {
        Err(EvalError::FloatOperand)
    } else {
        other
    }
}

/// Applies `op` to two values.
pub fn apply_op(op: Op, l: &Value, r: &Value) -> (res: Result<Value, EvalError>)
    ensures
        result_view(res) == apply(op, l@, r@),
{
    match op {
        Op::And => match (l, r) {
            (Value::Bool(a), Value::Bool(b)) => Ok(Value::Bool(*a && *b)),
            _ => Err(EvalError::TypeMismatch),
        },
        Op::Or => match (l, r) {
            (Value::Bool(a), Value::Bool(b)) => Ok(Value::Bool(*a || *b)),
            _ => Err(EvalError::TypeMismatch),
        },
        Op::Eq => Ok(Value::Bool(value_eq(l, r))),
        Op::Ne => Ok(Value::Bool(!value_eq(l, r))),
        Op::Ge => match (l, r) {
            (Value::Int(a), Value::Int(b)) => Ok(Value::Bool(*a >= *b)),
            _ => fallback(l, r, Ok(Value::Null)),
        },
        Op::Le => match (l, r) {
            (Value::Int(a), Value::Int(b)) => Ok(Value::Bool(*a <= *b)),
            _ => fallback(l, r, Ok(Value::Null)),
        },
        Op::Gt => match (l, r) {
            (Value::Int(a), Value::Int(b)) => Ok(Value::Bool(*a > *b)),
            _ => fallback(l, r, Ok(Value::Null)),
        },
        Op::Lt => match (l, r) {
            (Value::Int(a), Value::Int(b)) => Ok(Value::Bool(*a < *b)),
            _ => fallback(l, r, Ok(Value::Null)),
        },
        Op::Add => match (l, r) {
            (Value::Int(a), Value::Int(b)) => match a.checked_add(*b) {
                Some(s) => Ok(Value::Int(s)),
                None => Err(EvalError::Overflow),
            },
            (Value::Str(a), Value::Str(b)) => Ok(Value::Str(a.clone().concat(b.as_str()))),
            _ => fallback(l, r, Err(EvalError::TypeMismatch)),
        },
        Op::Sub => match (l, r) {
            (Value::Int(a), Value::Int(b)) => match a.checked_sub(*b) {
                Some(s) => Ok(Value::Int(s)),
                None => Err(EvalError::Overflow),
            },
            _ => fallback(l, r, Ok(Value::Null)),
        },
        Op::Mul => match (l, r) {
            (Value::Int(a), Value::Int(b)) => match a.checked_mul(*b) {
                Some(s) => Ok(Value::Int(s)),
                None => Err(EvalError::Overflow),
            },
            _ => fallback(l, r, Ok(Value::Null)),
        },
        Op::Div => if is_numeric(l) && is_numeric(r) && zero_number(r) {
            Err(EvalError::DivisionByZero)
        } else {
            match (l, r) {
                (Value::Int(a), Value::Int(b)) => div_ints(*a, *b),
                _ => fallback(l, r, Ok(Value::Null)),
            }
        },
    }
}

/// Applies the operator spelled `op` to `left` and `right`; `UnknownOperator`
/// where `op` spells none.
#[allow(non_snake_case)]
pub fn Eval(left: &Value, right: &Value, op: &str) -> (res: Result<Value, EvalError>)
    ensures
        match op_of_text(op@) {
            Some(o) => result_view(res) == apply(o, left@, right@),
            None => res == Err::<Value, EvalError>(EvalError::UnknownOperator),
        },
{
    let t = chars_of(op);
    match op_from_chars(&t) {
        Some(o) => apply_op(o, left, right),
        None => Err(EvalError::UnknownOperator),
    }
}

} // verus!
