use vstd::prelude::*;
use crate::value::{Value, Env, Scope, chars_of, chars_eq};
use crate::node::{NodeType, RenderError, Rendered, render_seq, render_children, views, extends};

verus! {

/// Named statement templates, each a sequence of nodes.
pub struct Mapper {
    pub statements: Vec<(String, Vec<NodeType>)>,
}

/// A render failure, with the name of the statement it happened in.
#[derive(Debug)]
pub struct StatementError {
    pub statement: String,
    pub cause: RenderError,
}

/// The position of the first statement from `i` on named `name`.
pub open spec fn find_from(stmts: Seq<(String, Vec<NodeType>)>, name: Seq<char>, i: int) -> Option<int>
    decreases stmts.len() - i,
{
    if i < 0 || i >= stmts.len() {
        None
    } else if stmts[i].0@ == name {
        Some(i)
    } else {
        find_from(stmts, name, i + 1)
    }
}

/// What the statement named `name` renders in the scope `vars`.
pub open spec fn statement_output(stmts: Seq<(String, Vec<NodeType>)>, name: Seq<char>, vars: Scope) -> Rendered {
    match find_from(stmts, name, 0) {
        Some(k) => if 0 <= k < stmts.len() {
            render_seq(stmts[k].1@, vars)
        } else {
            Err(RenderError::UnknownStatement)
        },
        None => Err(RenderError::UnknownStatement),
    }
}

/// `r` is the outcome of rendering the statement `name` of `stmts` in `vars`:
/// its text and bound values, or the failure with the statement's name.
pub open spec fn statement_result(
    stmts: Seq<(String, Vec<NodeType>)>,
    name: Seq<char>,
    vars: Scope,
    r: Result<(String, Vec<Value>), StatementError>,
) -> bool {
    match statement_output(stmts, name, vars) {
        Ok((x, y)) => r is Ok && r->Ok_0.0@ == x && views(r->Ok_0.1@) == y,
        Err(e) => r is Err && r->Err_0.cause == e && r->Err_0.statement@ == name,
    }
}

/// Relies on `String`'s `FromIterator<&char>`: the string holds the given
/// characters in order.
#[verifier::external_body]
pub(crate) fn string_from_chars(v: &Vec<char>) -> (r: String)
    ensures
        r@ == v@,
{
    v.iter().collect()
}

impl Mapper {
    /// Renders the statement named `name` in the scope `env` into its SQL
    /// text and the values bound to its `?` markers, in order.
    pub fn render_statement(&self, name: &str, env: &Env) -> (r: Result<(String, Vec<Value>), StatementError>)
        ensures
            statement_result(self.statements@, name@, env@, r),
    {
        let n = chars_of(name);
        let mut i: usize = 0;
        while i < self.statements.len()
            invariant
                n@ == name@,
                i <= self.statements.len(),
                find_from(self.statements@, name@, 0) == find_from(self.statements@, name@, i as int),
            decreases self.statements.len() - i,
        {
            let key = chars_of(self.statements[i].0.as_str());
            if chars_eq(&key, &n) {
                let mut out: Vec<char> = Vec::new();
                let mut binds: Vec<Value> = Vec::new();
                let res = render_children(&self.statements[i].1, env, &mut out, &mut binds);
                proof {
                    assert(out@ =~= Seq::<char>::empty() + out@);
                }
                return match res {
                    Ok(()) => {
                        proof {
                            assert(views(Seq::<Value>::empty()) =~= Seq::empty());
                            assert(Seq::<char>::empty() + out@ =~= out@);
                        }
                        Ok((string_from_chars(&out), binds))
                    },
                    Err(e) => Err(StatementError { statement: name.to_owned(), cause: e }),
                };
            }
            i = i + 1;
        }
        Err(StatementError { statement: name.to_owned(), cause: RenderError::UnknownStatement })
    }
}

} // verus!
