use vstd::prelude::*;

verus! {

broadcast use vstd::seq::group_seq_axioms, vstd::std_specs::vec::group_vec_axioms;

/// A dynamically typed value as it flows through expressions, bindings and
/// rows: a scalar, an ordered array, or an object of named entries.
///
/// `Float` carries the IEEE-754 bit pattern of a double; the library compares
/// it structurally and leaves float arithmetic to its callers.
#[derive(Debug)]
pub enum Value {
    Null,
    Bool(bool),
    Int(i64),
    Float(u64),
    Str(String),
    Array(Vec<Value>),
    Object(Vec<(String, Value)>),
}

/// The mathematical content of a `Value`.
pub enum Val {
    Null,
    Bool(bool),
    Int(int),
    Float(u64),
    Str(Seq<char>),
    Array(Seq<Val>),
    Object(Seq<(Seq<char>, Val)>),
}

/// The content of a value.
pub open spec fn value_view(v: Value) -> Val
    decreases v,
{
    match v {
        Value::Null => Val::Null,
        Value::Bool(b) => Val::Bool(b),
        Value::Int(n) => Val::Int(n as int),
        Value::Float(bits) => Val::Float(bits),
        Value::Str(s) => Val::Str(s@),
        Value::Array(items) => Val::Array(items_view(items@)),
        Value::Object(entries) => Val::Object(entries_view(entries@)),
    }
}

/// The contents of a sequence of values.
pub open spec fn items_view(s: Seq<Value>) -> Seq<Val>
    decreases s,
{
    if s.len() == 0 {
        Seq::empty()
    } else {
        items_view(s.subrange(0, s.len() - 1)).push(value_view(s[s.len() - 1]))
    }
}

/// The contents of a sequence of named values.
pub open spec fn entries_view(s: Seq<(String, Value)>) -> Seq<(Seq<char>, Val)>
    decreases s,
{
    if s.len() == 0 {
        Seq::empty()
    } else {
        entries_view(s.subrange(0, s.len() - 1)).push((s[s.len() - 1].0@, value_view(s[s.len() - 1].1)))
    }
}

impl View for Value {
    type V = Val;

    open spec fn view(&self) -> Val {
        value_view(*self)
    }
}

pub proof fn lemma_items_view(s: Seq<Value>)
    ensures
        items_view(s).len() == s.len(),
        forall|i: int| 0 <= i < s.len() ==> #[trigger] items_view(s)[i] == s[i]@,
    decreases s.len(),
{
    if s.len() > 0 {
        let p = s.subrange(0, s.len() - 1);
        lemma_items_view(p);
        assert forall|i: int| 0 <= i < s.len() implies #[trigger] items_view(s)[i] == s[i]@ by {
            if i < s.len() - 1 {
                assert(p[i] == s[i]);
            }
        }
    }
}

pub proof fn lemma_entries_view(s: Seq<(String, Value)>)
    ensures
        entries_view(s).len() == s.len(),
        forall|i: int| 0 <= i < s.len() ==> #[trigger] entries_view(s)[i] == (s[i].0@, s[i].1@),
    decreases s.len(),
{
    if s.len() > 0 {
        let p = s.subrange(0, s.len() - 1);
        lemma_entries_view(p);
        assert forall|i: int| 0 <= i < s.len() implies #[trigger] entries_view(s)[i] == (s[i].0@, s[i].1@) by {
            if i < s.len() - 1 {
                assert(p[i] == s[i]);
            }
        }
    }
}

/// Structural equality of two values: same kind and same content.
pub fn value_eq(a: &Value, b: &Value) -> (r: bool)
    ensures
        r == (a@ == b@),
    decreases a,
{
    match a {
        Value::Null => match b {
            Value::Null => true,
            _ => false,
        },
        Value::Bool(x) => match b {
            Value::Bool(y) => *x == *y,
            _ => false,
        },
        Value::Int(x) => match b {
            Value::Int(y) => *x == *y,
            _ => false,
        },
        Value::Float(x) => match b {
            Value::Float(y) => *x == *y,
            _ => false,
        },
        Value::Str(x) => match b {
            Value::Str(y) => x.eq(y),
            _ => false,
        },
        Value::Array(xs) => match b {
            Value::Array(ys) => {
                proof {
                    lemma_items_view(xs@);
                    lemma_items_view(ys@);
                }
                if xs.len() != ys.len() {
                    return false;
                }
                let mut i: usize = 0;
                while i < xs.len()
                    invariant
                        xs.len() == ys.len(),
                        i <= xs.len(),
                        *a == Value::Array(*xs),
                        a@ == Val::Array(items_view(xs@)),
                        b@ == Val::Array(items_view(ys@)),
                        items_view(xs@).len() == xs.len(),
                        items_view(ys@).len() == ys.len(),
                        forall|k: int| 0 <= k < xs.len() ==> #[trigger] items_view(xs@)[k] == xs@[k]@,
                        forall|k: int| 0 <= k < ys.len() ==> #[trigger] items_view(ys@)[k] == ys@[k]@,
                        forall|k: int| 0 <= k < i ==> xs@[k]@ == ys@[k]@,
                    decreases xs.len() - i,
                {
                    proof {
                        assert(decreases_to!(*a => xs[i as int]));
                    }
                    if !value_eq(&xs[i], &ys[i]) {
                        assert(items_view(xs@)[i as int] != items_view(ys@)[i as int]);
                        return false;
                    }
                    i = i + 1;
                }
                assert(items_view(xs@) =~= items_view(ys@));
                true
            },
            _ => false,
        },
        Value::Object(xs) => match b {
            Value::Object(ys) => {
                proof {
                    lemma_entries_view(xs@);
                    lemma_entries_view(ys@);
                }
                if xs.len() != ys.len() {
                    return false;
                }
                let mut i: usize = 0;
                while i < xs.len()
                    invariant
                        xs.len() == ys.len(),
                        i <= xs.len(),
                        *a == Value::Object(*xs),
                        a@ == Val::Object(entries_view(xs@)),
                        b@ == Val::Object(entries_view(ys@)),
                        entries_view(xs@).len() == xs.len(),
                        entries_view(ys@).len() == ys.len(),
                        forall|k: int| 0 <= k < xs.len() ==> #[trigger] entries_view(xs@)[k] == (xs@[k].0@, xs@[k].1@),
                        forall|k: int| 0 <= k < ys.len() ==> #[trigger] entries_view(ys@)[k] == (ys@[k].0@, ys@[k].1@),
                        forall|k: int| 0 <= k < i ==> xs@[k].0@ == ys@[k].0@ && xs@[k].1@ == ys@[k].1@,
                    decreases xs.len() - i,
                {
                    proof {
                        assert(decreases_to!(*a => xs[i as int].1));
                    }
                    if !xs[i].0.eq(&ys[i].0) || !value_eq(&xs[i].1, &ys[i].1) {
                        assert(entries_view(xs@)[i as int] != entries_view(ys@)[i as int]);
                        return false;
                    }
                    i = i + 1;
                }
                assert(entries_view(xs@) =~= entries_view(ys@));
                true
            },
            _ => false,
        },
    }
}

/// A copy of a value with the same content.
pub fn copy_value(v: &Value) -> (r: Value)
    ensures
        r@ == v@,
    decreases v,
{
    match v {
        Value::Null => Value::Null,
        Value::Bool(b) => Value::Bool(*b),
        Value::Int(n) => Value::Int(*n),
        Value::Float(bits) => Value::Float(*bits),
        Value::Str(s) => Value::Str(s.clone()),
        Value::Array(xs) => {
            let mut out: Vec<Value> = Vec::new();
            let mut i: usize = 0;
            while i < xs.len()
                invariant
                    *v == Value::Array(*xs),
                    i <= xs.len(),
                    out.len() == i,
                    forall|k: int| 0 <= k < i ==> (#[trigger] out@[k])@ == xs@[k]@,
                decreases xs.len() - i,
            {
                proof {
                    assert(decreases_to!(*v => (*v)->Array_0));
                    assert(decreases_to!(*xs => xs[i as int]));
                }
                out.push(copy_value(&xs[i]));
                i = i + 1;
            }
            proof {
                lemma_items_view(out@);
                lemma_items_view(xs@);
                assert(items_view(out@) =~= items_view(xs@));
            }
            Value::Array(out)
        },
        Value::Object(xs) => {
            let mut out: Vec<(String, Value)> = Vec::new();
            let mut i: usize = 0;
            while i < xs.len()
                invariant
                    *v == Value::Object(*xs),
                    i <= xs.len(),
                    out.len() == i,
                    forall|k: int| 0 <= k < i ==> (#[trigger] out@[k]).0@ == xs@[k].0@ && out@[k].1@ == xs@[k].1@,
                decreases xs.len() - i,
            {
                proof {
                    assert(decreases_to!(*v => (*v)->Object_0));
                    assert(decreases_to!(*xs => xs[i as int]));
                    assert(decreases_to!(xs[i as int] => xs[i as int].1));
                }
                out.push((xs[i].0.clone(), copy_value(&xs[i].1)));
                i = i + 1;
            }
            proof {
                lemma_entries_view(out@);
                lemma_entries_view(xs@);
                assert(entries_view(out@) =~= entries_view(xs@));
            }
            Value::Object(out)
        },
    }
}

/// The variable scope of one render: named values; a later binding of a
/// name shadows an earlier one.
#[derive(Debug)]
pub struct Env {
    pub vars: Vec<(String, Value)>,
}

/// The content of a scope.
pub struct Scope {
    pub vars: Seq<(Seq<char>, Val)>,
}

pub open spec fn vals(s: Seq<Value>) -> Seq<Val> {
    s.map_values(|v: Value| v@)
}

pub open spec fn var_views(s: Seq<(String, Value)>) -> Seq<(Seq<char>, Val)> {
    s.map_values(|p: (String, Value)| (p.0@, p.1@))
}

impl View for Env {
    type V = Scope;

    open spec fn view(&self) -> Scope {
        Scope { vars: var_views(self.vars@) }
    }
}

/// The value of the last binding of `name` among the first `n` of `vars`, or
/// `Null` when there is none.
pub open spec fn lookup_upto(vars: Seq<(Seq<char>, Val)>, name: Seq<char>, n: int) -> Val
    decreases n,
{
    if n <= 0 || n > vars.len() {
        Val::Null
    } else if vars[n - 1].0 == name {
        vars[n - 1].1
    } else {
        lookup_upto(vars, name, n - 1)
    }
}

/// The value bound to `name` in `vars`.
pub open spec fn lookup(vars: Seq<(Seq<char>, Val)>, name: Seq<char>) -> Val {
    lookup_upto(vars, name, vars.len() as int)
}

/// Decides whether two character sequences are equal.
pub fn chars_eq(a: &Vec<char>, b: &Vec<char>) -> (r: bool)
    ensures
        r == (a@ == b@),
{
    if a.len() != b.len() {
        return false;
    }
    let mut i: usize = 0;
    while i < a.len()
        invariant
            a.len() == b.len(),
            i <= a.len(),
            forall|k: int| 0 <= k < i ==> a@[k] == b@[k],
        decreases a.len() - i,
    {
        if a[i] != b[i] {
            return false;
        }
        i = i + 1;
    }
    assert(a@ =~= b@);
    true
}

/// The characters of a string, in order.
pub fn chars_of(s: &str) -> (r: Vec<char>)
    ensures
        r@ == s@,
{
    let n = s.unicode_len();
    let mut out: Vec<char> = Vec::new();
    let mut i: usize = 0;
    while i < n
        invariant
            n == s@.len(),
            i <= n,
            out@ == s@.subrange(0, i as int),
        decreases n - i,
    {
        out.push(s.get_char(i));
        i = i + 1;
    }
    assert(out@ =~= s@);
    out
}

impl Env {
    /// The value bound to `name`, or `Null` when `name` is unbound.
    pub fn get(&self, name: &Vec<char>) -> (r: Value)
        ensures
            r@ == lookup(self@.vars, name@),
    {
        let mut i: usize = self.vars.len();
        while i > 0
            invariant
                i <= self.vars.len(),
                lookup(self@.vars, name@) == lookup_upto(self@.vars, name@, i as int),
            decreases i,
        {
            let key = chars_of(self.vars[i - 1].0.as_str());
            if chars_eq(&key, name) {
                return copy_value(&self.vars[i - 1].1);
            }
            i = i - 1;
        }
        Value::Null
    }

}

/// A copy of a scope with the same content.
pub fn copy_env(env: &Env) -> (r: Env)
    ensures
        r@ == env@,
{
    let mut vars: Vec<(String, Value)> = Vec::new();
    let mut i: usize = 0;
    while i < env.vars.len()
        invariant
            i <= env.vars.len(),
            vars.len() == i,
            forall|k: int| 0 <= k < i ==> (#[trigger] vars@[k]).0@ == env.vars@[k].0@ && vars@[k].1@ == env.vars@[k].1@,
        decreases env.vars.len() - i,
    {
        vars.push((env.vars[i].0.clone(), copy_value(&env.vars[i].1)));
        i = i + 1;
    }
    assert(var_views(vars@) =~= var_views(env.vars@));
    Env { vars }
}

} // verus!
