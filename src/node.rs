use vstd::prelude::*;
use crate::value::{Value, Val, Env, Scope, items_view, lemma_items_view, var_views, copy_env, copy_value, chars_of};
use crate::eval::EvalError;
use crate::expr::{Class, run_end, eval_text, evaluate, scan_run};
use crate::trim::{trimmed, strip_blanks, drop_leading, drop_trailing};

verus! {

broadcast use vstd::seq::group_seq_axioms, vstd::std_specs::vec::group_vec_axioms;

/// Why a template could not be rendered.
#[derive(PartialEq, Eq, Structural, Debug, Clone, Copy)]
pub enum RenderError {
    /// A guard or placeholder expression failed.
    Eval(EvalError),
    /// A guard evaluated to something other than a boolean.
    NotBool,
    /// A `#{` raw substitution whose value is not a string.
    RawNotText,
    /// A `${` or `#{` placeholder without its closing `}`.
    UnclosedPlaceholder,
    /// No statement has the requested name.
    UnknownStatement,
    /// A foreach collection is not an array, or one too long to index.
    BadCollection,
}

/// A node of a statement template.
pub enum NodeType {
    /// Literal SQL in which each `${expr}` becomes a `?` and binds the value of
    /// `expr`, and each `#{expr}` is replaced by the text of `expr`, a string.
    Text(String),
    /// Children rendered only when a guard holds.
    If(IfNode),
    /// The children of the first `when` whose guard holds, else `otherwise`.
    Choose(ChooseNode),
    /// Children whose joined text is trimmed and framed.
    Trim(TrimNode),
    /// Children rendered once per element of an array.
    Foreach(ForeachNode),
}

/// Renders `childs` when `test` evaluates to `true`.
pub struct IfNode {
    pub childs: Vec<NodeType>,
    pub test: String,
}

/// Renders the branch of the first `when` whose test holds, else `otherwise`.
pub struct ChooseNode {
    pub whens: Vec<IfNode>,
    pub otherwise: Vec<NodeType>,
}

/// Renders its children, strips blanks and one leading and one trailing
/// override token from their text, and frames what is left with `prefix` and
/// `suffix`; renders nothing where nothing is left.
pub struct TrimNode {
    pub childs: Vec<NodeType>,
    pub prefix: String,
    pub suffix: String,
    pub prefix_overrides: Vec<String>,
    pub suffix_overrides: Vec<String>,
}

/// Renders its children once per element of the array that the expression
/// `collection` evaluates to, with `item` bound to the element and `index` to
/// its position, the renderings joined by `separator` between `open` and
/// `close`.
pub struct ForeachNode {
    pub childs: Vec<NodeType>,
    pub collection: String,
    pub item: String,
    pub index: String,
    pub open: String,
    pub close: String,
    pub separator: String,
}

/// Rendered text with the values it binds, in order.
pub type Rendered = Result<(Seq<char>, Seq<Val>), RenderError>;

pub open spec fn views(s: Seq<Value>) -> Seq<Val> {
    s.map_values(|v: Value| v@)
}

pub open spec fn empty_rendered() -> Rendered {
    Ok((Seq::<char>::empty(), Seq::<Val>::empty()))
}

/// `a` and `b` put before what `r` renders.
pub open spec fn prepend(a: Seq<char>, b: Seq<Val>, r: Rendered) -> Rendered {
    match r {
        Ok((x, y)) => Ok((a + x, b + y)),
        Err(e) => Err(e),
    }
}

/// What `r1` renders followed by what `r2` renders; the first error wins.
pub open spec fn join(r1: Rendered, r2: Rendered) -> Rendered {
    match r1 {
        Err(e) => Err(e),
        Ok((x, y)) => prepend(x, y, r2),
    }
}

/// The truth of a guard expression.
pub open spec fn guard(test: Seq<char>, vars: Scope) -> Result<bool, RenderError> {
    match eval_text(test, vars.vars) {
        Err(e) => Err(RenderError::Eval(e)),
        Ok(Val::Bool(b)) => Ok(b),
        Ok(_) => Err(RenderError::NotBool),
    }
}

/// What the text `t` renders from position `i` on.
pub open spec fn render_text(t: Seq<char>, vars: Scope, i: int) -> Rendered
    decreases t.len() - i,
{
    if i < 0 || i >= t.len() {
        empty_rendered()
    } else if t[i] == '$' && i + 1 < t.len() && t[i + 1] == '{' {
        let q = run_end(t, i + 2, Class::NotBrace);
        if q >= t.len() {
            Err(RenderError::UnclosedPlaceholder)
        } else {
            match eval_text(t.subrange(i + 2, q), vars.vars) {
                Err(e) => Err(RenderError::Eval(e)),
                Ok(v) => if q + 1 > i {
                    prepend(seq!['?'], seq![v], render_text(t, vars, q + 1))
                } else {
                    Err(RenderError::UnclosedPlaceholder)
                },
            }
        }
    } else if t[i] == '#' && i + 1 < t.len() && t[i + 1] == '{' {
        let q = run_end(t, i + 2, Class::NotBrace);
        if q >= t.len() {
            Err(RenderError::UnclosedPlaceholder)
        } else {
            match eval_text(t.subrange(i + 2, q), vars.vars) {
                Err(e) => Err(RenderError::Eval(e)),
                Ok(Val::Str(cs)) => if q + 1 > i {
                    prepend(cs, Seq::empty(), render_text(t, vars, q + 1))
                } else {
                    Err(RenderError::UnclosedPlaceholder)
                },
                Ok(_) => Err(RenderError::RawNotText),
            }
        }
    } else {
        prepend(seq![t[i]], Seq::empty(), render_text(t, vars, i + 1))
    }
}

/// What a node renders in the scope `vars`.
pub open spec fn render_node(n: NodeType, vars: Scope) -> Rendered
    decreases n, 0int,
{
    match n {
        NodeType::Text(t) => render_text(t@, vars, 0),
        NodeType::If(f) => render_if(f, vars),
        NodeType::Choose(c) => render_choice(c, vars),
        NodeType::Trim(t) => render_trim(t, vars),
        NodeType::Foreach(f) => match eval_text(f.collection@, vars.vars) {
            Err(e) => Err(RenderError::Eval(e)),
            Ok(Val::Array(items)) => if items.len() <= i64::MAX {
                wrap(f.open@, f.close@, render_items(f, items, vars))
            } else {
                Err(RenderError::BadCollection)
            },
            Ok(_) => Err(RenderError::BadCollection),
        },
    }
}

/// What an `If` node renders: its children where the guard holds, else nothing.
pub open spec fn render_if(f: IfNode, vars: Scope) -> Rendered
    decreases f, 0int,
{
    match guard(f.test@, vars) {
        Err(e) => Err(e),
        Ok(true) => render_seq(f.childs@, vars),
        Ok(false) => empty_rendered(),
    }
}

/// What a choice renders: the children of the first `when` whose guard
/// holds, else those of `otherwise`.
pub open spec fn render_choice(c: ChooseNode, vars: Scope) -> Rendered
    decreases c, 0int,
{
    match chosen_branch(c.whens@, vars, 0) {
        Err(e) => Err(e),
        Ok(Some(i)) => if 0 <= i < c.whens@.len() {
            render_seq(c.whens@[i].childs@, vars)
        } else {
            empty_rendered()
        },
        Ok(None) => render_seq(c.otherwise@, vars),
    }
}

/// What a trim node renders: its children's binds, and their text trimmed.
pub open spec fn render_trim(t: TrimNode, vars: Scope) -> Rendered
    decreases t, 0int,
{
    match render_seq(t.childs@, vars) {
        Err(e) => Err(e),
        Ok((x, y)) => Ok((trimmed(x, t.prefix@, t.suffix@, t.prefix_overrides@, t.suffix_overrides@), y)),
    }
}

/// The scope in which a foreach body renders the element `v` at position `k`.
pub open spec fn bind_item(vars: Scope, f: ForeachNode, v: Val, k: int) -> Scope {
    Scope { vars: vars.vars.push((f.item@, v)).push((f.index@, Val::Int(k))) }
}

/// What `r` renders, between `open` and `close`.
pub open spec fn wrap(open: Seq<char>, close: Seq<char>, r: Rendered) -> Rendered {
    match r {
        Ok((x, y)) => Ok((open + x + close, y)),
        Err(e) => Err(e),
    }
}

/// What a foreach body renders for the elements `items`, joined by its separator.
pub open spec fn render_items(f: ForeachNode, items: Seq<Val>, vars: Scope) -> Rendered
    decreases f, items.len(),
{
    if items.len() == 0 {
        empty_rendered()
    } else {
        let k = items.len() - 1;
        let sep = if k > 0 {
            f.separator@
        } else {
            Seq::empty()
        };
        join(
            render_items(f, items.subrange(0, k), vars),
            prepend(sep, Seq::empty(), render_seq(f.childs@, bind_item(vars, f, items[k], k))),
        )
    }
}

/// What a sequence of nodes renders: each node's text in order.
pub open spec fn render_seq(s: Seq<NodeType>, vars: Scope) -> Rendered
    decreases s, 0int,
{
    if s.len() == 0 {
        empty_rendered()
    } else {
        join(render_seq(s.subrange(0, s.len() - 1), vars), render_node(s[s.len() - 1], vars))
    }
}

/// The index of the first `when` from `i` on whose guard holds, if any; the
/// first failing guard before it is the error.
pub open spec fn chosen_branch(whens: Seq<IfNode>, vars: Scope, i: int) -> Result<Option<int>, RenderError>
    decreases whens.len() - i,
{
    if i < 0 || i >= whens.len() {
        Ok(None)
    } else {
        match guard(whens[i].test@, vars) {
            Err(e) => Err(e),
            Ok(true) => Ok(Some(i)),
            Ok(false) => chosen_branch(whens, vars, i + 1),
        }
    }
}

/// `res` reports what `r` renders, put after `out0` and `b0` to give `out1`
/// and `b1`.
pub open spec fn extends(
    r: Rendered,
    res: Result<(), RenderError>,
    out0: Seq<char>,
    out1: Seq<char>,
    b0: Seq<Value>,
    b1: Seq<Value>,
) -> bool {
    match r {
        Ok((x, y)) => res is Ok && out1 == out0 + x && b0.len() <= b1.len() && b1.subrange(
            0,
            b0.len() as int,
        ) == b0 && views(b1) == views(b0) + y,
        Err(e) => res == Err::<(), RenderError>(e) && out1 == out0 && b1 == b0,
    }
}

/// Cuts `out` and `binds` back to the lengths `n` and `m`.
fn restore(out: &mut Vec<char>, n: usize, binds: &mut Vec<Value>, m: usize)
    requires
        n <= old(out).len(),
        m <= old(binds).len(),
    ensures
        final(out)@ == old(out)@.subrange(0, n as int),
        final(binds)@ == old(binds)@.subrange(0, m as int),
{
    out.truncate(n);
    binds.truncate(m);
}

proof fn lemma_prepend_prepend(a: Seq<char>, b: Seq<Val>, c: Seq<char>, d: Seq<Val>, r: Rendered)
    ensures
        prepend(a, b, prepend(c, d, r)) == prepend(a + c, b + d, r),
{
    match r {
        Ok((x, y)) => {
            assert(a + (c + x) =~= (a + c) + x);
            assert(b + (d + y) =~= (b + d) + y);
        },
        Err(e) => {},
    }
}

proof fn lemma_views_push(s: Seq<Value>, v: Value)
    ensures
        views(s.push(v)) == views(s).push(v@),
{
    assert(views(s.push(v)) =~= views(s).push(v@));
}

/// The truth of a guard expression.
pub fn check_guard(test: &String, env: &Env) -> (r: Result<bool, RenderError>)
    ensures
        r == guard(test@, env@),
{
    match evaluate(test.as_str(), env) {
        Err(e) => Err(RenderError::Eval(e)),
        Ok(Value::Bool(b)) => Ok(b),
        Ok(_) => Err(RenderError::NotBool),
    }
}

/// Renders the text `t` onto `out`, binding each placeholder's value onto `binds`.
pub fn render_text_into(t: &String, env: &Env, out: &mut Vec<char>, binds: &mut Vec<Value>) -> (r: Result<(), RenderError>)
    ensures
        extends(render_text(t@, env@, 0), r, old(out)@, final(out)@, old(binds)@, final(binds)@),
{
    let ghost out0 = out@;
    let ghost b0 = binds@;
    let n0 = out.len();
    let m0 = binds.len();
    let ghost mut gx: Seq<char> = Seq::empty();
    let ghost mut gy: Seq<Val> = Seq::empty();
    let text = t.as_str();
    let s = crate::value::chars_of(text);
    let mut i: usize = 0;
    proof {
        assert(out0 + gx =~= out0);
        assert(views(b0) + gy =~= views(b0));
        assert(prepend(gx, gy, render_text(s@, env@, 0)) == render_text(s@, env@, 0)) by {
            match render_text(s@, env@, 0) {
                Ok((x, y)) => {
                    assert(gx + x =~= x);
                    assert(gy + y =~= y);
                },
                Err(e) => {},
            }
        }
    }
    while i < s.len()
        invariant
            s@ == t@,
            text@ == t@,
            i <= s.len(),
            out@ == out0 + gx,
            out0 == old(out)@,
            b0 == old(binds)@,
            n0 == out0.len(),
            m0 == b0.len(),
            b0.len() <= binds@.len(),
            binds@.subrange(0, b0.len() as int) == b0,
            views(binds@) == views(b0) + gy,
            render_text(s@, env@, 0) == prepend(gx, gy, render_text(s@, env@, i as int)),
        decreases s.len() - i,
    {
        if s[i] == '$' && i + 1 < s.len() && s[i + 1] == '{' {
            let q = scan_run(&s, i + 2, Class::NotBrace);
            if q >= s.len() {
                restore(out, n0, binds, m0);
                assert(out@ =~= out0);
                assert(binds@ =~= b0);
                return Err(RenderError::UnclosedPlaceholder);
            }
            let v = match evaluate(text.substring_char(i + 2, q), env) {
                Err(e) => {
                    restore(out, n0, binds, m0);
                    assert(out@ =~= out0);
                    assert(binds@ =~= b0);
                    return Err(RenderError::Eval(e));
                },
                Ok(v) => v,
            };
            proof {
                lemma_prepend_prepend(gx, gy, seq!['?'], seq![v@], render_text(s@, env@, q + 1));
                lemma_views_push(binds@, v);
                assert(seq![v@] =~= Seq::<Val>::empty().push(v@));
                gx = gx + seq!['?'];
                gy = gy + seq![v@];
            }
            out.push('?');
            binds.push(v);
            proof {
                assert(binds@.subrange(0, b0.len() as int) =~= b0);
                assert(out@ =~= out0 + gx);
                assert(views(binds@) =~= views(b0) + gy);
            }
            i = q + 1;
        } else if s[i] == '#' && i + 1 < s.len() && s[i + 1] == '{' {
            let q = scan_run(&s, i + 2, Class::NotBrace);
            if q >= s.len() {
                restore(out, n0, binds, m0);
                assert(out@ =~= out0);
                assert(binds@ =~= b0);
                return Err(RenderError::UnclosedPlaceholder);
            }
            let raw = match evaluate(text.substring_char(i + 2, q), env) {
                Err(e) => {
                    restore(out, n0, binds, m0);
                    assert(out@ =~= out0);
                    assert(binds@ =~= b0);
                    return Err(RenderError::Eval(e));
                },
                Ok(Value::Str(raw)) => raw,
                Ok(_) => {
                    restore(out, n0, binds, m0);
                    assert(out@ =~= out0);
                    assert(binds@ =~= b0);
                    return Err(RenderError::RawNotText);
                },
            };
            proof {
                lemma_prepend_prepend(gx, gy, raw@, Seq::empty(), render_text(s@, env@, q + 1));
                gx = gx + raw@;
                gy = gy + Seq::<Val>::empty();
                assert(gy =~= gy + Seq::<Val>::empty());
            }
            push_chars(out, &chars_of(raw.as_str()));
            proof {
                assert(out@ =~= out0 + gx);
            }
            i = q + 1;
        } else {
            let c = s[i];
            proof {
                lemma_prepend_prepend(gx, gy, seq![c], Seq::empty(), render_text(s@, env@, i + 1));
                gx = gx + seq![c];
                gy = gy + Seq::<Val>::empty();
                assert(gy =~= gy + Seq::<Val>::empty());
            }
            out.push(c);
            proof {
                assert(out@ =~= out0 + gx);
            }
            i = i + 1;
        }
    }
    proof {
        assert(gx + Seq::<char>::empty() =~= gx);
        assert(gy + Seq::<Val>::empty() =~= gy);
    }
    Ok(())
}

proof fn lemma_seq_err(s: Seq<NodeType>, vars: Scope, j: int, k: int, e: RenderError)
    requires
        0 <= j <= k <= s.len(),
        render_seq(s.subrange(0, j), vars) == Err::<(Seq<char>, Seq<Val>), RenderError>(e),
    ensures
        render_seq(s.subrange(0, k), vars) == Err::<(Seq<char>, Seq<Val>), RenderError>(e),
    decreases k - j,
{
    if k > j {
        lemma_seq_err(s, vars, j, k - 1, e);
        assert(s.subrange(0, k).subrange(0, k - 1) =~= s.subrange(0, k - 1));
    }
}

/// Renders `nodes` in order onto `out` and `binds`, stopping at the first error.
pub fn render_children(nodes: &Vec<NodeType>, env: &Env, out: &mut Vec<char>, binds: &mut Vec<Value>) -> (r: Result<(), RenderError>)
    ensures
        extends(render_seq(nodes@, env@), r, old(out)@, final(out)@, old(binds)@, final(binds)@),
    decreases nodes,
{
    let ghost out0 = out@;
    let ghost b0 = binds@;
    let n0 = out.len();
    let m0 = binds.len();
    let ghost mut gx: Seq<char> = Seq::empty();
    let ghost mut gy: Seq<Val> = Seq::empty();
    let mut i: usize = 0;
    proof {
        assert(out0 + gx =~= out0);
        assert(views(b0) + gy =~= views(b0));
        assert(nodes@.subrange(0, 0) =~= Seq::<NodeType>::empty());
        assert(binds@.subrange(0, b0.len() as int) =~= b0);
    }
    while i < nodes.len()
        invariant
            i <= nodes.len(),
            out0 == old(out)@,
            b0 == old(binds)@,
            n0 == out0.len(),
            m0 == b0.len(),
            b0.len() <= binds@.len(),
            binds@.subrange(0, b0.len() as int) == b0,
            out@ == out0 + gx,
            views(binds@) == views(b0) + gy,
            render_seq(nodes@.subrange(0, i as int), env@) == Ok::<(Seq<char>, Seq<Val>), RenderError>((gx, gy)),
        decreases nodes.len() - i,
    {
        let ghost out1 = out@;
        let ghost b1 = binds@;
        proof {
            assert(nodes@.subrange(0, i + 1).subrange(0, i as int) =~= nodes@.subrange(0, i as int));
            assert(nodes@.subrange(0, i + 1)[i as int] == nodes@[i as int]);
        }
        let res = nodes[i].render(env, out, binds);
        match res {
            Err(e) => {
                proof {
                    lemma_seq_err(nodes@, env@, i + 1, nodes@.len() as int, e);
                    assert(nodes@.subrange(0, nodes@.len() as int) =~= nodes@);
                }
                restore(out, n0, binds, m0);
                assert(out@ =~= out0);
                assert(binds@ =~= b0);
                return Err(e);
            },
            Ok(()) => {
                proof {
                    let (x, y) = render_node(nodes@[i as int], env@)->Ok_0;
                    assert(binds@.subrange(0, b0.len() as int) =~= binds@.subrange(0, b1.len() as int).subrange(0, b0.len() as int));
                    assert(out@ =~= out0 + (gx + x));
                    assert(views(binds@) =~= views(b0) + (gy + y));
                    gx = gx + x;
                    gy = gy + y;
                }
            },
        }
        i = i + 1;
    }
    proof {
        assert(nodes@.subrange(0, nodes@.len() as int) =~= nodes@);
    }
    Ok(())
}

impl NodeType {
    /// Renders this node onto `out`, binding its placeholders' values onto `binds`.
    pub fn render(&self, env: &Env, out: &mut Vec<char>, binds: &mut Vec<Value>) -> (r: Result<(), RenderError>)
        ensures
            extends(render_node(*self, env@), r, old(out)@, final(out)@, old(binds)@, final(binds)@),
        decreases self,
    {
        match self {
            NodeType::Text(t) => render_text_into(t, env, out, binds),
            NodeType::If(f) => f.eval(env, out, binds),
            NodeType::Choose(c) => c.eval(env, out, binds),
            NodeType::Trim(t) => t.eval(env, out, binds),
            NodeType::Foreach(f) => f.eval(env, out, binds),
        }
    }
}

impl IfNode {
    /// Renders the children where the guard evaluates to `true`, nothing where
    /// it evaluates to `false`; fails where it fails or is not a boolean.
    pub fn eval(&self, env: &Env, out: &mut Vec<char>, binds: &mut Vec<Value>) -> (r: Result<(), RenderError>)
        ensures
            extends(render_if(*self, env@), r, old(out)@, final(out)@, old(binds)@, final(binds)@),
        decreases self,
    {
        match check_guard(&self.test, env) {
            Err(e) => Err(e),
            Ok(true) => render_children(&self.childs, env, out, binds),
            Ok(false) => {
                proof {
                    assert(out@ =~= out@ + Seq::<char>::empty());
                    assert(views(binds@) =~= views(binds@) + Seq::<Val>::empty());
                    assert(binds@.subrange(0, binds@.len() as int) =~= binds@);
                }
                Ok(())
            },
        }
    }
}

impl ChooseNode {
    /// Renders the children of the first `when` whose guard holds, else those
    /// of `otherwise`.
    pub fn eval(&self, env: &Env, out: &mut Vec<char>, binds: &mut Vec<Value>) -> (r: Result<(), RenderError>)
        ensures
            extends(render_choice(*self, env@), r, old(out)@, final(out)@, old(binds)@, final(binds)@),
        decreases self,
    {
        let ghost out0 = out@;
        let ghost b0 = binds@;
        let mut i: usize = 0;
        while i < self.whens.len()
            invariant
                i <= self.whens.len(),
                out@ == out0,
                binds@ == b0,
                out0 == old(out)@,
                b0 == old(binds)@,
                chosen_branch(self.whens@, env@, 0) == chosen_branch(self.whens@, env@, i as int),
            decreases self.whens.len() - i,
        {
            match check_guard(&self.whens[i].test, env) {
                Err(e) => return Err(e),
                Ok(true) => {
                    assert(chosen_branch(self.whens@, env@, i as int) == Ok::<Option<int>, RenderError>(Some(i as int)));
                    return render_children(&self.whens[i].childs, env, out, binds);
                },
                Ok(false) => {},
            }
            i = i + 1;
        }
        render_children(&self.otherwise, env, out, binds)
    }
}

fn push_chars(out: &mut Vec<char>, cs: &Vec<char>)
    ensures
        final(out)@ == old(out)@ + cs@,
{
    let ghost base = out@;
    let mut i: usize = 0;
    while i < cs.len()
        invariant
            base == old(out)@,
            i <= cs.len(),
            out@ == base + cs@.subrange(0, i as int),
        decreases cs.len() - i,
    {
        out.push(cs[i]);
        i = i + 1;
        assert(out@ =~= base + cs@.subrange(0, i as int));
    }
    assert(cs@.subrange(0, cs.len() as int) =~= cs@);
}

impl TrimNode {
    /// Renders the children, then writes their trimmed and framed text.
    pub fn eval(&self, env: &Env, out: &mut Vec<char>, binds: &mut Vec<Value>) -> (r: Result<(), RenderError>)
        ensures
            extends(render_trim(*self, env@), r, old(out)@, final(out)@, old(binds)@, final(binds)@),
        decreases self,
    {
        let mut inner: Vec<char> = Vec::new();
        match render_children(&self.childs, env, &mut inner, binds) {
            Err(e) => return Err(e),
            Ok(()) => {},
        }
        proof {
            assert(Seq::<char>::empty() + inner@ =~= inner@);
        }
        let body = drop_trailing(drop_leading(strip_blanks(&inner), &self.prefix_overrides), &self.suffix_overrides);
        let ghost base = out@;
        if body.len() > 0 {
            push_chars(out, &crate::value::chars_of(self.prefix.as_str()));
            push_chars(out, &body);
            push_chars(out, &crate::value::chars_of(self.suffix.as_str()));
            assert(out@ =~= base + (self.prefix@ + body@ + self.suffix@));
        } else {
            assert(out@ =~= base + Seq::<char>::empty());
        }
        Ok(())
    }
}

proof fn lemma_items_err(f: ForeachNode, items: Seq<Val>, vars: Scope, j: int, k: int, e: RenderError)
    requires
        0 <= j <= k <= items.len(),
        render_items(f, items.subrange(0, j), vars) == Err::<(Seq<char>, Seq<Val>), RenderError>(e),
    ensures
        render_items(f, items.subrange(0, k), vars) == Err::<(Seq<char>, Seq<Val>), RenderError>(e),
    decreases k - j,
{
    if k > j {
        lemma_items_err(f, items, vars, j, k - 1, e);
        assert(items.subrange(0, k).subrange(0, k - 1) =~= items.subrange(0, k - 1));
    }
}

impl ForeachNode {
    /// Renders the children once per element of the array, each time in a copy
    /// of the scope that binds the element and its position.
    pub fn eval(&self, env: &Env, out: &mut Vec<char>, binds: &mut Vec<Value>) -> (r: Result<(), RenderError>)
        ensures
            extends(render_node(NodeType::Foreach(*self), env@), r, old(out)@, final(out)@, old(binds)@, final(binds)@),
        decreases self,
    {
        let coll = match evaluate(self.collection.as_str(), env) {
            Err(e) => return Err(RenderError::Eval(e)),
            Ok(v) => v,
        };
        let xs = match coll {
            Value::Array(xs) => xs,
            _ => return Err(RenderError::BadCollection),
        };
        proof {
            lemma_items_view(xs@);
        }
        let ghost items = items_view(xs@);
        let n = xs.len();
        if n as u64 > 9223372036854775807u64 {
            return Err(RenderError::BadCollection);
        }
        let ghost out0 = out@;
        let ghost b0 = binds@;
        let n0 = out.len();
        let m0 = binds.len();
        let ghost mut gx: Seq<char> = Seq::empty();
        let ghost mut gy: Seq<Val> = Seq::empty();
        assert(items.len() == n);
        assert(binds@.subrange(0, b0.len() as int) =~= b0);
        push_chars(out, &chars_of(self.open.as_str()));
        let mut k: usize = 0;
        proof {
            assert(items.subrange(0, 0) =~= Seq::<Val>::empty());
            assert(out@ =~= out0 + self.open@ + gx);
            assert(views(binds@) =~= views(b0) + gy);
        }
        while k < n
            invariant
                n == xs.len(),
                n <= i64::MAX,
                items == items_view(xs@),
                items.len() == n,
                forall|m: int| 0 <= m < n ==> #[trigger] items[m] == xs@[m]@,
                eval_text(self.collection@, env@.vars) == Ok::<Val, EvalError>(Val::Array(items)),
                k <= n,
                out0 == old(out)@,
                b0 == old(binds)@,
                n0 == out0.len(),
                m0 == b0.len(),
                b0.len() <= binds@.len(),
                binds@.subrange(0, b0.len() as int) == b0,
                out@ == out0 + self.open@ + gx,
                views(binds@) == views(b0) + gy,
                render_items(*self, items.subrange(0, k as int), env@) == Ok::<(Seq<char>, Seq<Val>), RenderError>((gx, gy)),
            decreases n - k,
        {
            let ghost out1 = out@;
            let ghost sep: Seq<char> = if k > 0 { self.separator@ } else { Seq::empty() };
            if k > 0 {
                push_chars(out, &chars_of(self.separator.as_str()));
            } else {
                assert(out@ =~= out1 + sep);
            }
            let mut scope = copy_env(env);
            let ghost before = scope.vars@;
            scope.vars.push((self.item.clone(), copy_value(&xs[k])));
            scope.vars.push((self.index.clone(), Value::Int(k as i64)));
            proof {
                assert(var_views(scope.vars@) =~= var_views(before).push((self.item@, items[k as int])).push((self.index@, Val::Int(k as int))));
                assert(scope@ == bind_item(env@, *self, items[k as int], k as int));
                assert(items.subrange(0, k + 1).subrange(0, k as int) =~= items.subrange(0, k as int));
                assert(items.subrange(0, k + 1)[k as int] == items[k as int]);
            }
            let ghost out2 = out@;
            let ghost b2 = binds@;
            match render_children(&self.childs, &scope, out, binds) {
                Err(e) => {
                    proof {
                        lemma_items_err(*self, items, env@, k + 1, n as int, e);
                        assert(items.subrange(0, n as int) =~= items);
                        assert(render_node(NodeType::Foreach(*self), env@) == wrap(self.open@, self.close@, render_items(*self, items, env@)));
                    }
                    restore(out, n0, binds, m0);
                    assert(out@ =~= out0);
                    assert(binds@ =~= b0);
                    return Err(e);
                },
                Ok(()) => {
                    proof {
                        let (x, y) = render_seq(self.childs@, bind_item(env@, *self, items[k as int], k as int))->Ok_0;
                        assert(binds@.subrange(0, b0.len() as int) =~= binds@.subrange(0, b2.len() as int).subrange(0, b0.len() as int));
                        assert(Seq::<Val>::empty() + y =~= y);
                        assert(out@ =~= out0 + self.open@ + (gx + (sep + x)));
                        assert(views(binds@) =~= views(b0) + (gy + (Seq::<Val>::empty() + y)));
                        gx = gx + (sep + x);
                        gy = gy + (Seq::<Val>::empty() + y);
                    }
                },
            }
            k = k + 1;
        }
        push_chars(out, &chars_of(self.close.as_str()));
        proof {
            assert(items.subrange(0, n as int) =~= items);
            assert(out@ =~= out0 + (self.open@ + gx + self.close@));
            assert(gy =~= Seq::<Val>::empty() + gy);
        }
        Ok(())
    }
}

} // verus!
