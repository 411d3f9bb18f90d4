use vstd::prelude::*;
use crate::expr::{Class, in_class, run_end, scan_run, lemma_run_end_bounds, slice_chars};
use crate::decode::{starts_with, has_prefix};

verus! {

pub open spec fn ends_with(t: Seq<char>, p: Seq<char>) -> bool {
    p.len() <= t.len() && t.subrange(t.len() - p.len(), t.len() as int) == p
}

/// The start of the run of blanks that ends at `j`.
pub open spec fn trail_start(t: Seq<char>, j: int) -> int
    decreases j,
{
    if 0 < j <= t.len() && in_class(t[j - 1], Class::Space) {
        trail_start(t, j - 1)
    } else {
        j
    }
}

/// `t` without its leading and trailing blanks.
pub open spec fn stripped(t: Seq<char>) -> Seq<char> {
    let a = run_end(t, 0, Class::Space);
    let b = trail_start(t, t.len() as int);
    if a < b {
        t.subrange(a, b)
    } else {
        Seq::empty()
    }
}

/// `t` without the first of the non-empty tokens `ps` that it starts with.
pub open spec fn drop_lead(t: Seq<char>, ps: Seq<String>) -> Seq<char>
    decreases ps.len(),
{
    if ps.len() == 0 {
        t
    } else if ps[0]@.len() > 0 && starts_with(t, ps[0]@) {
        t.subrange(ps[0]@.len() as int, t.len() as int)
    } else {
        drop_lead(t, ps.subrange(1, ps.len() as int))
    }
}

/// `t` without the first of the non-empty tokens `ps` that it ends with.
pub open spec fn drop_trail(t: Seq<char>, ps: Seq<String>) -> Seq<char>
    decreases ps.len(),
{
    if ps.len() == 0 {
        t
    } else if ps[0]@.len() > 0 && ends_with(t, ps[0]@) {
        t.subrange(0, t.len() - ps[0]@.len())
    } else {
        drop_trail(t, ps.subrange(1, ps.len() as int))
    }
}

/// What a trim node makes of its children's text: stripped of blanks and of
/// one leading and one trailing override, then framed by `prefix` and
/// `suffix`; nothing where nothing is left.
pub open spec fn trimmed(
    x: Seq<char>,
    prefix: Seq<char>,
    suffix: Seq<char>,
    leads: Seq<String>,
    trails: Seq<String>,
) -> Seq<char> {
    let body = drop_trail(drop_lead(stripped(x), leads), trails);
    if body.len() == 0 {
        Seq::empty()
    } else {
        prefix + body + suffix
    }
}

fn has_suffix(t: &Vec<char>, p: &str) -> (r: bool)
    ensures
        r == ends_with(t@, p@),
{
    let pc = crate::value::chars_of(p);
    if pc.len() > t.len() {
        return false;
    }
    let off = t.len() - pc.len();
    let mut i: usize = 0;
    while i < pc.len()
        invariant
            pc@ == p@,
            pc.len() <= t.len(),
            off == t.len() - pc.len(),
            i <= pc.len(),
            forall|k: int| 0 <= k < i ==> t@[off + k] == pc@[k],
        decreases pc.len() - i,
    {
        if t[off + i] != pc[i] {
            assert(t@.subrange(off as int, t.len() as int)[i as int] != pc@[i as int]);
            return false;
        }
        i = i + 1;
    }
    assert(t@.subrange(off as int, t.len() as int) =~= pc@);
    true
}

proof fn lemma_trail_start_bounds(t: Seq<char>, j: int)
    requires
        0 <= j <= t.len(),
    ensures
        0 <= trail_start(t, j) <= j,
        forall|m: int| trail_start(t, j) <= m < j ==> in_class(#[trigger] t[m], Class::Space),
    decreases j,
{
    if 0 < j && in_class(t[j - 1], Class::Space) {
        lemma_trail_start_bounds(t, j - 1);
    }
}

/// `t` without its leading and trailing blanks.
pub fn strip_blanks(t: &Vec<char>) -> (r: Vec<char>)
    ensures
        r@ == stripped(t@),
{
    let a = scan_run(t, 0, Class::Space);
    let mut b = t.len();
    proof {
        lemma_trail_start_bounds(t@, t.len() as int);
    }
    while b > 0 && (t[b - 1] == ' ' || t[b - 1] == '\t' || t[b - 1] == '\n' || t[b - 1] == '\r')
        invariant
            b <= t.len(),
            trail_start(t@, t.len() as int) == trail_start(t@, b as int),
        decreases b,
    {
        b = b - 1;
    }
    if a < b {
        slice_chars(t, a, b)
    } else {
        Vec::new()
    }
}

/// `t` without the first of the non-empty tokens `ps` that it starts with.
pub fn drop_leading(t: Vec<char>, ps: &Vec<String>) -> (r: Vec<char>)
    ensures
        r@ == drop_lead(t@, ps@),
{
    let mut i: usize = 0;
    assert(ps@.subrange(0, ps.len() as int) =~= ps@);
    while i < ps.len()
        invariant
            i <= ps.len(),
            drop_lead(t@, ps@) == drop_lead(t@, ps@.subrange(i as int, ps.len() as int)),
        decreases ps.len() - i,
    {
        let ghost rest = ps@.subrange(i as int, ps.len() as int);
        assert(rest[0] == ps@[i as int]);
        assert(rest.subrange(1, rest.len() as int) =~= ps@.subrange(i + 1, ps.len() as int));
        let p = ps[i].as_str();
        if ps[i].as_str().unicode_len() > 0 && has_prefix(&t, p) {
            let n = p.unicode_len();
            return slice_chars(&t, n, t.len());
        }
        i = i + 1;
    }
    t
}

/// `t` without the first of the non-empty tokens `ps` that it ends with.
pub fn drop_trailing(t: Vec<char>, ps: &Vec<String>) -> (r: Vec<char>)
    ensures
        r@ == drop_trail(t@, ps@),
{
    let mut i: usize = 0;
    assert(ps@.subrange(0, ps.len() as int) =~= ps@);
    while i < ps.len()
        invariant
            i <= ps.len(),
            drop_trail(t@, ps@) == drop_trail(t@, ps@.subrange(i as int, ps.len() as int)),
        decreases ps.len() - i,
    {
        let ghost rest = ps@.subrange(i as int, ps.len() as int);
        assert(rest[0] == ps@[i as int]);
        assert(rest.subrange(1, rest.len() as int) =~= ps@.subrange(i + 1, ps.len() as int));
        let p = ps[i].as_str();
        if ps[i].as_str().unicode_len() > 0 && has_suffix(&t, p) {
            let n = p.unicode_len();
            return slice_chars(&t, 0, t.len() - n);
        }
        i = i + 1;
    }
    t
}

} // verus!
