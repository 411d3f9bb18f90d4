use vstd::prelude::*;
use crate::value::{Value, Val, Scope};
use crate::eval::{EvalError, Op, apply, int_result, in_i64};
use crate::node::{
    NodeType, IfNode, ChooseNode, RenderError, Rendered, guard, render_text, render_node, render_seq,
    render_if, render_choice, chosen_branch, empty_rendered, views,
};
use crate::mapper::{StatementError, statement_result};

verus! {

broadcast use vstd::seq::group_seq_axioms;

/// `&&` and `||` take two booleans and nothing else: any other operand is a
/// `TypeMismatch`, never coerced.
pub proof fn law_logic_takes_bools(l: Val, r: Val)
    ensures
        apply(Op::And, l, r) is Ok <==> (l is Bool && r is Bool),
        apply(Op::Or, l, r) is Ok <==> (l is Bool && r is Bool),
        !(l is Bool && r is Bool) ==> apply(Op::And, l, r) == Err::<Val, EvalError>(EvalError::TypeMismatch)
            && apply(Op::Or, l, r) == Err::<Val, EvalError>(EvalError::TypeMismatch),
{
}

/// On integers, arithmetic is exact wherever the result fits in an `i64`,
/// comparisons are the usual order, and division by zero is an error.
pub proof fn law_int_arithmetic(a: int, b: int)
    ensures
        apply(Op::Add, Val::Int(a), Val::Int(b)) == int_result(a + b),
        apply(Op::Sub, Val::Int(a), Val::Int(b)) == int_result(a - b),
        apply(Op::Mul, Val::Int(a), Val::Int(b)) == int_result(a * b),
        apply(Op::Div, Val::Int(a), Val::Int(0)) == Err::<Val, EvalError>(EvalError::DivisionByZero),
        apply(Op::Lt, Val::Int(a), Val::Int(b)) == Ok::<Val, EvalError>(Val::Bool(a < b)),
        apply(Op::Le, Val::Int(a), Val::Int(b)) == Ok::<Val, EvalError>(Val::Bool(a <= b)),
        apply(Op::Gt, Val::Int(a), Val::Int(b)) == Ok::<Val, EvalError>(Val::Bool(a > b)),
        apply(Op::Ge, Val::Int(a), Val::Int(b)) == Ok::<Val, EvalError>(Val::Bool(a >= b)),
        in_i64(a + b) ==> apply(Op::Add, Val::Int(a), Val::Int(b)) == Ok::<Val, EvalError>(Val::Int(a + b)),
{
}

/// An `If` node whose guard is false renders nothing and binds nothing,
/// whatever its children are.
pub proof fn law_false_guard_renders_nothing(f: IfNode, g: IfNode, vars: Scope)
    requires
        guard(f.test@, vars) == Ok::<bool, RenderError>(false),
        g.test@ == f.test@,
    ensures
        render_if(f, vars) == empty_rendered(),
        render_if(g, vars) == empty_rendered(),
{
}

/// Whether the text `t` holds no `${` or `#{` placeholder.
pub open spec fn no_placeholder(t: Seq<char>) -> bool {
    forall|i: int| 0 <= i < t.len() - 1 ==> !((#[trigger] t[i] == '$' || t[i] == '#') && t[i + 1] == '{')
}

/// Whether a template is only literal text nodes.
pub open spec fn literal_template(s: Seq<NodeType>) -> bool {
    forall|i: int| 0 <= i < s.len() ==> (#[trigger] s[i] is Text && no_placeholder(s[i]->Text_0@))
}

/// The texts of a literal template, one after the other.
pub open spec fn template_text(s: Seq<NodeType>) -> Seq<char>
    decreases s.len(),
{
    if s.len() == 0 {
        Seq::empty()
    } else {
        template_text(s.subrange(0, s.len() - 1)) + s[s.len() - 1]->Text_0@
    }
}

proof fn lemma_literal_text(t: Seq<char>, vars: Scope, i: int)
    requires
        no_placeholder(t),
        0 <= i <= t.len(),
    ensures
        render_text(t, vars, i) == Ok::<(Seq<char>, Seq<Val>), RenderError>((t.subrange(i, t.len() as int), Seq::empty())),
    decreases t.len() - i,
{
    if i < t.len() {
        lemma_literal_text(t, vars, i + 1);
        if i + 1 < t.len() {
            assert(!((t[i] == '$' || t[i] == '#') && t[i + 1] == '{'));
        }
        assert(seq![t[i]] + t.subrange(i + 1, t.len() as int) =~= t.subrange(i, t.len() as int));
        assert(Seq::<Val>::empty() + Seq::<Val>::empty() =~= Seq::<Val>::empty());
    } else {
        assert(t.subrange(i, t.len() as int) =~= Seq::<char>::empty());
    }
}

/// A template of literal text alone renders to its text, byte for byte, and
/// binds no value.
pub proof fn law_literal_round_trip(s: Seq<NodeType>, vars: Scope)
    requires
        literal_template(s),
    ensures
        render_seq(s, vars) == Ok::<(Seq<char>, Seq<Val>), RenderError>((template_text(s), Seq::empty())),
    decreases s.len(),
{
    if s.len() > 0 {
        let p = s.subrange(0, s.len() - 1);
        assert forall|i: int| 0 <= i < p.len() implies (#[trigger] p[i] is Text && no_placeholder(p[i]->Text_0@)) by {
            assert(p[i] == s[i]);
        }
        law_literal_round_trip(p, vars);
        let last = s[s.len() - 1];
        assert(last is Text && no_placeholder(last->Text_0@));
        let t = last->Text_0@;
        lemma_literal_text(t, vars, 0);
        assert(t.subrange(0, t.len() as int) =~= t);
        assert(render_node(last, vars) == render_text(t, vars, 0));
        assert(Seq::<Val>::empty() + Seq::<Val>::empty() =~= Seq::<Val>::empty());
        assert(render_seq(s, vars) == crate::node::join(render_seq(p, vars), render_node(last, vars)));
    }
}

proof fn lemma_chosen(whens: Seq<IfNode>, vars: Scope, j: int, i: int)
    requires
        0 <= j <= i < whens.len(),
        guard(whens[i].test@, vars) == Ok::<bool, RenderError>(true),
        forall|k: int| 0 <= k < i ==> guard((#[trigger] whens[k]).test@, vars) == Ok::<bool, RenderError>(false),
    ensures
        chosen_branch(whens, vars, j) == Ok::<Option<int>, RenderError>(Some(i)),
    decreases i - j,
{
    if j < i {
        lemma_chosen(whens, vars, j + 1, i);
    }
}

/// A choice renders the branch of the first `when` whose guard holds, and
/// that branch alone, however many later guards would hold too.
pub proof fn law_choose_first_match(c: ChooseNode, vars: Scope, i: int)
    requires
        0 <= i < c.whens@.len(),
        guard(c.whens@[i].test@, vars) == Ok::<bool, RenderError>(true),
        forall|k: int| 0 <= k < i ==> guard((#[trigger] c.whens@[k]).test@, vars) == Ok::<bool, RenderError>(false),
    ensures
        render_choice(c, vars) == render_seq(c.whens@[i].childs@, vars),
        render_node(NodeType::Choose(c), vars) == render_seq(c.whens@[i].childs@, vars),
{
    lemma_chosen(c.whens@, vars, 0, i);
}

/// Rendering one statement twice with the same arguments gives the same SQL
/// text and the same bound values, or the same failure.
pub proof fn law_render_idempotent(
    stmts: Seq<(String, Vec<NodeType>)>,
    name: Seq<char>,
    vars: Scope,
    r1: Result<(String, Vec<Value>), StatementError>,
    r2: Result<(String, Vec<Value>), StatementError>,
)
    requires
        statement_result(stmts, name, vars, r1),
        statement_result(stmts, name, vars, r2),
    ensures
        r1 is Ok <==> r2 is Ok,
        r1 is Ok ==> r1->Ok_0.0@ == r2->Ok_0.0@ && views(r1->Ok_0.1@) == views(r2->Ok_0.1@),
        r1 is Err ==> r1->Err_0.cause == r2->Err_0.cause,
{
}

} // verus!
