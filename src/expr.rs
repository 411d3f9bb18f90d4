use vstd::prelude::*;
use crate::value::{Value, Val, Env, lookup, chars_of};
use crate::eval::{EvalError, Op, op_of_text, apply, apply_op, op_from_chars, result_view};

verus! {

/// The character classes the expression scanner reads runs of.
#[derive(PartialEq, Eq, Structural, Clone, Copy)]
pub enum Class {
    Space,
    Word,
    Digit,
    Operator,
    NotQuote,
    NotBrace,
}

pub open spec fn is_digit(c: char) -> bool {
    '0' <= c && c <= '9'
}

pub open spec fn is_word_start(c: char) -> bool {
    ('a' <= c && c <= 'z') || ('A' <= c && c <= 'Z') || c == '_'
}

pub open spec fn in_class(c: char, k: Class) -> bool {
    match k {
        Class::Space => c == ' ' || c == '\t' || c == '\n' || c == '\r',
        Class::Word => is_word_start(c) || is_digit(c) || c == '.',
        Class::Digit => is_digit(c),
        Class::Operator => c == '&' || c == '|' || c == '=' || c == '!' || c == '<' || c == '>'
            || c == '+' || c == '-' || c == '*' || c == '/',
        Class::NotQuote => c != '\'',
        Class::NotBrace => c != '}',
    }
}

/// The end of the run of class `k` that starts at `i`.
pub open spec fn run_end(s: Seq<char>, i: int, k: Class) -> int
    decreases s.len() - i,
{
    if 0 <= i < s.len() && in_class(s[i], k) {
        run_end(s, i + 1, k)
    } else {
        i
    }
}

/// The number written by the decimal digits `s[i..j]`.
pub open spec fn digits_value(s: Seq<char>, i: int, j: int) -> int
    decreases j - i,
{
    if j <= i {
        0
    } else {
        digits_value(s, i, j - 1) * 10 + (s[j - 1] as int - '0' as int)
    }
}

/// The literal value of a word, if it is a keyword.
pub open spec fn keyword(w: Seq<char>) -> Option<Val> {
    if w == seq!['n', 'u', 'l', 'l'] {
        Some(Val::Null)
    } else if w == seq!['t', 'r', 'u', 'e'] {
        Some(Val::Bool(true))
    } else if w == seq!['f', 'a', 'l', 's', 'e'] {
        Some(Val::Bool(false))
    } else {
        None
    }
}

/// The operand that starts at or after `i` (after spaces), with the position
/// that follows it: a quoted string, a decimal integer, a keyword, or a
/// variable name.
pub open spec fn operand_at(s: Seq<char>, vars: Seq<(Seq<char>, Val)>, i: int) -> Result<(Val, int), EvalError> {
    let p = run_end(s, i, Class::Space);
    if p < 0 || p >= s.len() {
        Err(EvalError::ParseError)
    } else if s[p] == '\'' {
        let q = run_end(s, p + 1, Class::NotQuote);
        if q >= s.len() {
            Err(EvalError::ParseError)
        } else {
            Ok((Val::Str(s.subrange(p + 1, q)), q + 1))
        }
    } else if is_digit(s[p]) {
        let e = run_end(s, p, Class::Digit);
        if digits_value(s, p, e) > i64::MAX {
            Err(EvalError::ParseError)
        } else {
            Ok((Val::Int(digits_value(s, p, e)), e))
        }
    } else if is_word_start(s[p]) {
        let e = run_end(s, p, Class::Word);
        let w = s.subrange(p, e);
        match keyword(w) {
            Some(v) => Ok((v, e)),
            None => Ok((lookup(vars, w), e)),
        }
    } else {
        Err(EvalError::ParseError)
    }
}

/// The operator that starts at `p`, with the position that follows it.
pub open spec fn operator_at(s: Seq<char>, p: int) -> Result<(Op, int), EvalError> {
    let e = run_end(s, p, Class::Operator);
    if e <= p {
        Err(EvalError::ParseError)
    } else {
        match op_of_text(s.subrange(p, e)) {
            Some(o) => Ok((o, e)),
            None => Err(EvalError::UnknownOperator),
        }
    }
}

/// Folds the operator-operand pairs from position `i` on into `acc`, left to
/// right.
pub open spec fn fold_from(s: Seq<char>, vars: Seq<(Seq<char>, Val)>, i: int, acc: Val) -> Result<Val, EvalError>
    decreases s.len() - i,
{
    let p = run_end(s, i, Class::Space);
    if i < 0 || p >= s.len() {
        Ok(acc)
    } else {
        match operator_at(s, p) {
            Err(e) => Err(e),
            Ok((o, j)) => match operand_at(s, vars, j) {
                Err(e) => Err(e),
                Ok((v, k)) => match apply(o, acc, v) {
                    Err(e) => Err(e),
                    Ok(a) => if i < k && k <= s.len() {
                        fold_from(s, vars, k, a)
                    } else {
                        Err(EvalError::ParseError)
                    },
                },
            },
        }
    }
}

/// The value of the expression `s` in the scope `vars`: its first operand,
/// then each operator applied in turn to the result so far and the operand
/// after it.
pub open spec fn eval_text(s: Seq<char>, vars: Seq<(Seq<char>, Val)>) -> Result<Val, EvalError> {
    match operand_at(s, vars, 0) {
        Err(e) => Err(e),
        Ok((v, k)) => fold_from(s, vars, k, v),
    }
}

pub proof fn lemma_run_end_bounds(s: Seq<char>, i: int, k: Class)
    requires
        0 <= i <= s.len(),
    ensures
        i <= run_end(s, i, k) <= s.len(),
        forall|m: int| i <= m < run_end(s, i, k) ==> in_class(#[trigger] s[m], k),
    decreases s.len() - i,
{
    if i < s.len() && in_class(s[i], k) {
        lemma_run_end_bounds(s, i + 1, k);
    }
}

/// The end of the run of class `k` that starts at `i`.
pub(crate) fn scan_run(s: &Vec<char>, i: usize, k: Class) -> (j: usize)
    requires
        i <= s.len(),
    ensures
        j == run_end(s@, i as int, k),
        i <= j <= s.len(),
{
    proof {
        lemma_run_end_bounds(s@, i as int, k);
    }
    let mut j = i;
    while j < s.len() && char_in_class(s[j], k)
        invariant
            i <= j <= s.len(),
            run_end(s@, i as int, k) == run_end(s@, j as int, k),
        decreases s.len() - j,
    {
        j = j + 1;
    }
    j
}

pub(crate) fn char_in_class(c: char, k: Class) -> (r: bool)
    ensures
        r == in_class(c, k),
{
    match k {
        Class::Space => c == ' ' || c == '\t' || c == '\n' || c == '\r',
        Class::Word => ('a' <= c && c <= 'z') || ('A' <= c && c <= 'Z') || c == '_' || ('0' <= c
            && c <= '9') || c == '.',
        Class::Digit => '0' <= c && c <= '9',
        Class::Operator => c == '&' || c == '|' || c == '=' || c == '!' || c == '<' || c == '>'
            || c == '+' || c == '-' || c == '*' || c == '/',
        Class::NotQuote => c != '\'',
        Class::NotBrace => c != '}',
    }
}

/// `s[a..b]` as a vector.
pub fn slice_chars(s: &Vec<char>, a: usize, b: usize) -> (r: Vec<char>)
    requires
        a <= b <= s.len(),
    ensures
        r@ == s@.subrange(a as int, b as int),
{
    let mut out: Vec<char> = Vec::new();
    let mut i = a;
    while i < b
        invariant
            a <= i <= b <= s.len(),
            out@ == s@.subrange(a as int, i as int),
        decreases b - i,
    {
        out.push(s[i]);
        i = i + 1;
    }
    out
}

proof fn lemma_digits_grow(s: Seq<char>, i: int, k: int, j: int)
    requires
        0 <= i <= k <= j <= s.len(),
        forall|m: int| i <= m < j ==> is_digit(#[trigger] s[m]),
    ensures
        0 <= digits_value(s, i, k) <= digits_value(s, i, j),
    decreases j - i,
{
    if j > k {
        lemma_digits_grow(s, i, k, j - 1);
    } else if k > i {
        lemma_digits_grow(s, i, k - 1, k - 1);
    }
}

/// The value of the digits `s[a..b]`, or `ParseError` above `i64::MAX`.
fn read_int(s: &Vec<char>, a: usize, b: usize) -> (r: Result<i64, EvalError>)
    requires
        a <= b <= s.len(),
        forall|m: int| a <= m < b ==> is_digit(#[trigger] s@[m]),
    ensures
        match r {
            Ok(n) => n as int == digits_value(s@, a as int, b as int),
            Err(e) => e == EvalError::ParseError && digits_value(s@, a as int, b as int) > i64::MAX,
        },
{
    let mut acc: i64 = 0;
    let mut i = a;
    while i < b
        invariant
            a <= i <= b <= s.len(),
            forall|m: int| a <= m < b ==> is_digit(#[trigger] s@[m]),
            acc as int == digits_value(s@, a as int, i as int),
            acc >= 0,
        decreases b - i,
    {
        let d: i64 = (s[i] as u32 - '0' as u32) as i64;
        assert(0 <= d <= 9);
        if acc > 922337203685477580 || (acc == 922337203685477580 && d > 7) {
            proof {
                assert(digits_value(s@, a as int, i as int + 1) == acc * 10 + d);
                assert(acc * 10 + d > i64::MAX) by (nonlinear_arith)
                    requires
                        acc > 922337203685477580 || (acc == 922337203685477580 && d > 7),
                        0 <= d <= 9,
                ;
                lemma_digits_grow(s@, a as int, i as int + 1, b as int);
            }
            return Err(EvalError::ParseError);
        }
        assert(acc * 10 + d <= i64::MAX) by (nonlinear_arith)
            requires
                0 <= acc <= 922337203685477580,
                acc == 922337203685477580 ==> d <= 7,
                0 <= d <= 9,
        ;
        acc = acc * 10 + d;
        i = i + 1;
    }
    Ok(acc)
}

/// The literal value of a word, if it is a keyword.
fn keyword_value(w: &Vec<char>) -> (r: Option<Value>)
    ensures
        match r {
            Some(v) => keyword(w@) == Some(v@),
            None => keyword(w@) is None,
        },
{
    if w.len() == 4 && w[0] == 'n' && w[1] == 'u' && w[2] == 'l' && w[3] == 'l' {
        assert(w@ =~= seq!['n', 'u', 'l', 'l']);
        Some(Value::Null)
    } else if w.len() == 4 && w[0] == 't' && w[1] == 'r' && w[2] == 'u' && w[3] == 'e' {
        assert(w@ =~= seq!['t', 'r', 'u', 'e']);
        Some(Value::Bool(true))
    } else if w.len() == 5 && w[0] == 'f' && w[1] == 'a' && w[2] == 'l' && w[3] == 's' && w[4]
        == 'e' {
        assert(w@ =~= seq!['f', 'a', 'l', 's', 'e']);
        Some(Value::Bool(false))
    } else {
        proof {
            if w@ == seq!['n', 'u', 'l', 'l'] || w@ == seq!['t', 'r', 'u', 'e'] {
                assert(w@[0] == seq!['n', 'u', 'l', 'l'][0] || w@[0] == seq!['t', 'r', 'u', 'e'][0]);
            }
            if w@ == seq!['f', 'a', 'l', 's', 'e'] {
                assert(w@[1] == seq!['f', 'a', 'l', 's', 'e'][1]);
            }
        }
        None
    }
}

/// Reads the operand at or after `i`.
fn read_operand(text: &str, s: &Vec<char>, env: &Env, i: usize) -> (r: Result<(Value, usize), EvalError>)
    requires
        s@ == text@,
        i <= s.len(),
    ensures
        match r {
            Ok((v, k)) => operand_at(s@, env@.vars, i as int) == Ok::<(Val, int), EvalError>((v@, k as int))
                && i < k <= s.len(),
            Err(e) => operand_at(s@, env@.vars, i as int) == Err::<(Val, int), EvalError>(e),
        },
{
    let p = scan_run(s, i, Class::Space);
    if p >= s.len() {
        return Err(EvalError::ParseError);
    }
    let c = s[p];
    if c == '\'' {
        let q = scan_run(s, p + 1, Class::NotQuote);
        if q >= s.len() {
            return Err(EvalError::ParseError);
        }
        let lit = text.substring_char(p + 1, q).to_owned();
        Ok((Value::Str(lit), q + 1))
    } else if '0' <= c && c <= '9' {
        let e = scan_run(s, p, Class::Digit);
        proof {
            lemma_run_end_bounds(s@, p as int, Class::Digit);
            lemma_run_end_bounds(s@, p as int + 1, Class::Digit);
        }
        match read_int(s, p, e) {
            Ok(n) => Ok((Value::Int(n), e)),
            Err(err) => Err(err),
        }
    } else if ('a' <= c && c <= 'z') || ('A' <= c && c <= 'Z') || c == '_' {
        let e = scan_run(s, p, Class::Word);
        proof {
            lemma_run_end_bounds(s@, p as int + 1, Class::Word);
        }
        let w = slice_chars(s, p, e);
        match keyword_value(&w) {
            Some(v) => Ok((v, e)),
            None => Ok((env.get(&w), e)),
        }
    } else {
        Err(EvalError::ParseError)
    }
}

/// Reads the operator at `p`.
fn read_operator(s: &Vec<char>, p: usize) -> (r: Result<(Op, usize), EvalError>)
    requires
        p <= s.len(),
    ensures
        match r {
            Ok((o, e)) => operator_at(s@, p as int) == Ok::<(Op, int), EvalError>((o, e as int))
                && e <= s.len(),
            Err(err) => operator_at(s@, p as int) == Err::<(Op, int), EvalError>(err),
        },
{
    let e = scan_run(s, p, Class::Operator);
    if e <= p {
        return Err(EvalError::ParseError);
    }
    let t = slice_chars(s, p, e);
    match op_from_chars(&t) {
        Some(o) => Ok((o, e)),
        None => Err(EvalError::UnknownOperator),
    }
}

/// Evaluates the expression `expr` in the scope `env`.
pub fn evaluate(expr: &str, env: &Env) -> (r: Result<Value, EvalError>)
    ensures
        result_view(r) == eval_text(expr@, env@.vars),
{
    let s = chars_of(expr);
    let (mut acc, mut i) = match read_operand(expr, &s, env, 0) {
        Ok(x) => x,
        Err(e) => return Err(e),
    };
    loop
        invariant
            s@ == expr@,
            i <= s.len(),
            eval_text(expr@, env@.vars) == fold_from(s@, env@.vars, i as int, acc@),
        decreases s.len() - i,
    {
        let p = scan_run(&s, i, Class::Space);
        if p >= s.len() {
            return Ok(acc);
        }
        let (o, j) = match read_operator(&s, p) {
            Ok(x) => x,
            Err(e) => return Err(e),
        };
        let (v, k) = match read_operand(expr, &s, env, j) {
            Ok(x) => x,
            Err(e) => return Err(e),
        };
        let next = match apply_op(o, &acc, &v) {
            Ok(a) => a,
            Err(e) => return Err(e),
        };
        acc = next;
        i = k;
    }
}

} // verus!
