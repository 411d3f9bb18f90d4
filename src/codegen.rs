use vstd::prelude::*;
use crate::value::chars_of;
use crate::decode::{starts_with, has_prefix};

verus! {

/// The entry point a generated statement function calls.
#[derive(PartialEq, Eq, Structural, Debug, Clone, Copy)]
pub enum EntryPoint {
    /// Render, run, and decode the rows.
    Fetch,
    /// Render and run, returning what was affected.
    Execute,
}

/// Whether statement text is a query.
pub open spec fn is_select_text(sql: Seq<char>) -> bool {
    starts_with(sql, "select "@) || starts_with(sql, "SELECT "@) || starts_with(sql, "\"select "@)
        || starts_with(sql, "\"SELECT "@)
}

/// Whether a declared return type must be wrapped in the library's result type.
pub open spec fn needs_wrap(ret: Seq<char>) -> bool {
    !starts_with(ret, "rbatis_core :: Result"@) && !starts_with(ret, "Result"@) && !starts_with(
        ret,
        "std :: result :: Result"@,
    )
}

/// Whether `p` occurs in `t` at position `k`.
pub open spec fn occurs_at(t: Seq<char>, p: Seq<char>, k: int) -> bool {
    0 <= k && k + p.len() <= t.len() && t.subrange(k, k + p.len()) == p
}

/// Whether `p` occurs anywhere in `t`.
pub open spec fn contains(t: Seq<char>, p: Seq<char>) -> bool {
    exists|k: int| occurs_at(t, p, k)
}

/// The parameters bound as statement arguments, in order, and the
/// transaction-id parameter if any (the last one whose name holds `tx_id`);
/// the receiver parameter is neither.
pub open spec fn arg_plan(ps: Seq<Seq<char>>, receiver: Seq<char>) -> (Seq<Seq<char>>, Option<Seq<char>>)
    decreases ps.len(),
{
    if ps.len() == 0 {
        (Seq::empty(), None)
    } else {
        let (names, tx) = arg_plan(ps.subrange(0, ps.len() - 1), receiver);
        let x = ps[ps.len() - 1];
        if x == receiver {
            (names, tx)
        } else if contains(x, "tx_id"@) {
            (names, Some(x))
        } else {
            (names.push(x), tx)
        }
    }
}

pub open spec fn texts(v: Seq<String>) -> Seq<Seq<char>> {
    v.map_values(|s: String| s@)
}

pub open spec fn opt_text(o: Option<String>) -> Option<Seq<char>> {
    match o {
        Some(s) => Some(s@),
        None => None,
    }
}

/// Which entry point the statement text `sql` dispatches to.
pub fn entry_point(sql: &str) -> (r: EntryPoint)
    ensures
        r == (if is_select_text(sql@) {
            EntryPoint::Fetch
        } else {
            EntryPoint::Execute
        }),
{
    let t = chars_of(sql);
    if has_prefix(&t, "select ") || has_prefix(&t, "SELECT ") || has_prefix(&t, "\"select ")
        || has_prefix(&t, "\"SELECT ") {
        EntryPoint::Fetch
    } else {
        EntryPoint::Execute
    }
}

/// Whether the declared return type `ret` must be wrapped in a result type.
pub fn needs_result_wrap(ret: &str) -> (r: bool)
    ensures
        r == needs_wrap(ret@),
{
    let t = chars_of(ret);
    !has_prefix(&t, "rbatis_core :: Result") && !has_prefix(&t, "Result") && !has_prefix(
        &t,
        "std :: result :: Result",
    )
}

/// Whether `p` occurs at position `k` of `t`.
fn matches_at(t: &Vec<char>, p: &Vec<char>, k: usize) -> (r: bool)
    requires
        k + p.len() <= t.len(),
    ensures
        r == occurs_at(t@, p@, k as int),
{
    let mut i: usize = 0;
    while i < p.len()
        invariant
            k + p.len() <= t.len(),
            i <= p.len(),
            forall|m: int| 0 <= m < i ==> t@[k + m] == p@[m],
        decreases p.len() - i,
    {
        if t[k + i] != p[i] {
            assert(t@.subrange(k as int, k + p.len())[i as int] != p@[i as int]);
            return false;
        }
        i = i + 1;
    }
    assert(t@.subrange(k as int, k + p.len()) =~= p@);
    true
}

/// Whether `p` occurs in `t`.
pub fn text_contains(t: &str, p: &str) -> (r: bool)
    ensures
        r == contains(t@, p@),
{
    let tc = chars_of(t);
    let pc = chars_of(p);
    if pc.len() > tc.len() {
        return false;
    }
    let mut k: usize = 0;
    let last = tc.len() - pc.len();
    loop
        invariant
            tc@ == t@,
            pc@ == p@,
            pc.len() <= tc.len(),
            last == tc.len() - pc.len(),
            k <= last,
            forall|m: int| 0 <= m < k ==> !occurs_at(t@, p@, m),
        decreases last - k,
    {
        if matches_at(&tc, &pc, k) {
            return true;
        }
        if k == last {
            assert forall|m: int| !occurs_at(t@, p@, m) by {
                if 0 <= m && m + p@.len() <= t@.len() {
                    assert(m <= k);
                }
            }
            return false;
        }
        k = k + 1;
    }
}

/// Splits a function's parameter names into the statement's arguments and
/// its transaction-id parameter, leaving out the receiver.
pub fn plan_args(params: &Vec<String>, receiver: &str) -> (r: (Vec<String>, Option<String>))
    ensures
        (texts(r.0@), opt_text(r.1)) == arg_plan(texts(params@), receiver@),
{
    let ghost ps = texts(params@);
    let rc = chars_of(receiver);
    let mut names: Vec<String> = Vec::new();
    let mut tx: Option<String> = None;
    let mut i: usize = 0;
    proof {
        assert(ps.subrange(0, 0) =~= Seq::<Seq<char>>::empty());
        assert(texts(names@) =~= Seq::<Seq<char>>::empty());
    }
    while i < params.len()
        invariant
            ps == texts(params@),
            rc@ == receiver@,
            i <= params.len(),
            (texts(names@), opt_text(tx)) == arg_plan(ps.subrange(0, i as int), receiver@),
        decreases params.len() - i,
    {
        proof {
            assert(ps.subrange(0, i + 1).subrange(0, i as int) =~= ps.subrange(0, i as int));
            assert(ps.subrange(0, i + 1)[i as int] == params@[i as int]@);
        }
        let p = &params[i];
        let pcs = chars_of(p.as_str());
        if crate::value::chars_eq(&pcs, &rc) {
        } else if text_contains(p.as_str(), "tx_id") {
            tx = Some(p.clone());
        } else {
            names.push(p.clone());
            proof {
                assert(texts(names@) =~= texts(names@.drop_last()).push(p@));
            }
        }
        i = i + 1;
    }
    proof {
        assert(ps.subrange(0, params.len() as int) =~= ps);
    }
    (names, tx)
}

} // verus!
