use vstd::prelude::*;
use crate::value::chars_of;
use crate::node::{NodeType, IfNode, ChooseNode, TrimNode, ForeachNode};

verus! {

broadcast use vstd::seq::group_seq_axioms, vstd::std_specs::vec::group_vec_axioms;

/// A line break followed by two spaces per level of depth.
pub open spec fn indent(d: int) -> Seq<char>
    decreases d,
{
    if d <= 0 {
        seq!['\n']
    } else {
        indent(d - 1) + seq![' ', ' ']
    }
}

/// The depth of a child: one level deeper, saturating at `usize::MAX`.
pub open spec fn deeper(d: int) -> int {
    if d < usize::MAX {
        d + 1
    } else {
        d
    }
}

/// The printed form of a node at depth `d`.
pub open spec fn print_node(n: NodeType, d: int) -> Seq<char>
    decreases n,
{
    match n {
        NodeType::Text(t) => indent(d) + t@,
        NodeType::If(f) => print_if(f, d),
        NodeType::Choose(c) => print_choice(c, d),
        NodeType::Trim(t) => print_trim(t, d),
        NodeType::Foreach(f) => print_foreach(f, d),
    }
}

/// The printed form of an `If` node at depth `d`.
pub open spec fn print_if(f: IfNode, d: int) -> Seq<char>
    decreases f,
{
    indent(d) + "<if  test=\""@ + f.test@ + "\" >"@ + print_seq(f.childs@, deeper(d)) + indent(d)
        + "</if>"@
}

/// The printed form of a trim node at depth `d`.
pub open spec fn print_trim(t: TrimNode, d: int) -> Seq<char>
    decreases t,
{
    indent(d) + "<trim prefix=\""@ + t.prefix@ + "\" suffix=\""@ + t.suffix@ + "\">"@ + print_seq(
        t.childs@,
        deeper(d),
    ) + indent(d) + "</trim>"@
}

/// The printed form of a foreach node at depth `d`.
pub open spec fn print_foreach(f: ForeachNode, d: int) -> Seq<char>
    decreases f,
{
    indent(d) + "<foreach collection=\""@ + f.collection@ + "\" item=\""@ + f.item@ + "\" index=\""@
        + f.index@ + "\">"@ + print_seq(f.childs@, deeper(d)) + indent(d) + "</foreach>"@
}

/// The printed forms of nodes at depth `d`, one after the other.
pub open spec fn print_seq(s: Seq<NodeType>, d: int) -> Seq<char>
    decreases s,
{
    if s.len() == 0 {
        Seq::empty()
    } else {
        print_seq(s.subrange(0, s.len() - 1), d) + print_node(s[s.len() - 1], d)
    }
}

/// The printed forms of `when` branches at depth `d`.
pub open spec fn print_whens(ws: Seq<IfNode>, d: int) -> Seq<char>
    decreases ws,
{
    if ws.len() == 0 {
        Seq::empty()
    } else {
        let w = ws[ws.len() - 1];
        print_whens(ws.subrange(0, ws.len() - 1), d) + indent(d) + "<when test=\""@ + w.test@
            + "\">"@ + print_seq(w.childs@, deeper(d)) + indent(d) + "</when>"@
    }
}

/// The printed form of a choice at depth `d`.
pub open spec fn print_choice(c: ChooseNode, d: int) -> Seq<char>
    decreases c,
{
    indent(d) + "<choose>"@ + print_whens(c.whens@, deeper(d)) + indent(deeper(d)) + "<otherwise>"@
        + print_seq(c.otherwise@, deeper(deeper(d))) + indent(deeper(d)) + "</otherwise>"@ + indent(d)
        + "</choose>"@
}

fn next_depth(d: usize) -> (r: usize)
    ensures
        r == deeper(d as int),
{
    if d < usize::MAX {
        d + 1
    } else {
        d
    }
}

fn push_text(out: &mut Vec<char>, s: &str)
    ensures
        final(out)@ == old(out)@ + s@,
{
    let cs = chars_of(s);
    let ghost base = out@;
    let mut i: usize = 0;
    while i < cs.len()
        invariant
            base == old(out)@,
            i <= cs.len(),
            out@ == base + cs@.subrange(0, i as int),
        decreases cs.len() - i,
    {
        out.push(cs[i]);
        i = i + 1;
        assert(out@ =~= base + cs@.subrange(0, i as int));
    }
    assert(cs@.subrange(0, cs.len() as int) =~= s@);
}

fn push_indent(out: &mut Vec<char>, d: usize)
    ensures
        final(out)@ == old(out)@ + indent(d as int),
{
    let ghost base = out@;
    out.push('\n');
    let mut i: usize = 0;
    assert(out@ =~= base + indent(0));
    while i < d
        invariant
            base == old(out)@,
            i <= d,
            out@ == base + indent(i as int),
        decreases d - i,
    {
        out.push(' ');
        out.push(' ');
        i = i + 1;
        assert(out@ =~= base + indent(i as int));
    }
}

fn print_seq_into(s: &Vec<NodeType>, d: usize, out: &mut Vec<char>)
    ensures
        final(out)@ == old(out)@ + print_seq(s@, d as int),
    decreases s,
{
    let ghost base = out@;
    let mut i: usize = 0;
    assert(s@.subrange(0, 0) =~= Seq::<NodeType>::empty());
    assert(out@ =~= base + print_seq(s@.subrange(0, 0), d as int));
    while i < s.len()
        invariant
            base == old(out)@,
            i <= s.len(),
            out@ == base + print_seq(s@.subrange(0, i as int), d as int),
        decreases s.len() - i,
    {
        assert(s@.subrange(0, i + 1).subrange(0, i as int) =~= s@.subrange(0, i as int));
        print_node_into(&s[i], d, out);
        i = i + 1;
        assert(out@ =~= base + print_seq(s@.subrange(0, i as int), d as int));
    }
    assert(s@.subrange(0, s.len() as int) =~= s@);
}

fn print_node_into(n: &NodeType, d: usize, out: &mut Vec<char>)
    ensures
        final(out)@ == old(out)@ + print_node(*n, d as int),
    decreases n,
{
    match n {
        NodeType::Text(t) => {
            let ghost base = out@;
            push_indent(out, d);
            push_text(out, t.as_str());
            assert(out@ =~= base + (indent(d as int) + t@));
        },
        NodeType::If(f) => f.print_into(d, out),
        NodeType::Choose(c) => c.print_into(d, out),
        NodeType::Trim(t) => t.print_into(d, out),
        NodeType::Foreach(f) => f.print_into(d, out),
    }
}

impl IfNode {
    fn print_into(&self, d: usize, out: &mut Vec<char>)
        ensures
            final(out)@ == old(out)@ + print_if(*self, d as int),
        decreases self,
    {
        let ghost base = out@;
        push_indent(out, d);
        push_text(out, "<if  test=\"");
        push_text(out, self.test.as_str());
        push_text(out, "\" >");
        print_seq_into(&self.childs, next_depth(d), out);
        push_indent(out, d);
        push_text(out, "</if>");
        assert(out@ =~= base + print_if(*self, d as int));
    }

    /// The nested XML-like form of this node, indented from depth `deep`.
    pub fn print(&self, deep: usize) -> (r: String)
        ensures
            r@ == print_if(*self, deep as int),
    {
        let mut out: Vec<char> = Vec::new();
        self.print_into(deep, &mut out);
        assert(out@ =~= print_if(*self, deep as int));
        crate::mapper::string_from_chars(&out)
    }
}

fn print_whens_into(ws: &Vec<IfNode>, d: usize, out: &mut Vec<char>)
    ensures
        final(out)@ == old(out)@ + print_whens(ws@, d as int),
    decreases ws,
{
    let ghost base = out@;
    let mut i: usize = 0;
    assert(ws@.subrange(0, 0) =~= Seq::<IfNode>::empty());
    assert(out@ =~= base + print_whens(ws@.subrange(0, 0), d as int));
    while i < ws.len()
        invariant
            base == old(out)@,
            i <= ws.len(),
            out@ == base + print_whens(ws@.subrange(0, i as int), d as int),
        decreases ws.len() - i,
    {
        assert(ws@.subrange(0, i + 1).subrange(0, i as int) =~= ws@.subrange(0, i as int));
        let w = &ws[i];
        push_indent(out, d);
        push_text(out, "<when test=\"");
        push_text(out, w.test.as_str());
        push_text(out, "\">");
        print_seq_into(&w.childs, next_depth(d), out);
        push_indent(out, d);
        push_text(out, "</when>");
        i = i + 1;
        assert(out@ =~= base + print_whens(ws@.subrange(0, i as int), d as int));
    }
    assert(ws@.subrange(0, ws.len() as int) =~= ws@);
}

impl ChooseNode {
    fn print_into(&self, d: usize, out: &mut Vec<char>)
        ensures
            final(out)@ == old(out)@ + print_choice(*self, d as int),
        decreases self,
    {
        let ghost base = out@;
        let d1 = next_depth(d);
        push_indent(out, d);
        push_text(out, "<choose>");
        print_whens_into(&self.whens, d1, out);
        push_indent(out, d1);
        push_text(out, "<otherwise>");
        print_seq_into(&self.otherwise, next_depth(d1), out);
        push_indent(out, d1);
        push_text(out, "</otherwise>");
        push_indent(out, d);
        push_text(out, "</choose>");
        assert(out@ =~= base + print_choice(*self, d as int));
    }
}

impl TrimNode {
    fn print_into(&self, d: usize, out: &mut Vec<char>)
        ensures
            final(out)@ == old(out)@ + print_trim(*self, d as int),
        decreases self,
    {
        let ghost base = out@;
        push_indent(out, d);
        push_text(out, "<trim prefix=\"");
        push_text(out, self.prefix.as_str());
        push_text(out, "\" suffix=\"");
        push_text(out, self.suffix.as_str());
        push_text(out, "\">");
        print_seq_into(&self.childs, next_depth(d), out);
        push_indent(out, d);
        push_text(out, "</trim>");
        assert(out@ =~= base + print_trim(*self, d as int));
    }
}

impl ForeachNode {
    fn print_into(&self, d: usize, out: &mut Vec<char>)
        ensures
            final(out)@ == old(out)@ + print_foreach(*self, d as int),
        decreases self,
    {
        let ghost base = out@;
        push_indent(out, d);
        push_text(out, "<foreach collection=\"");
        push_text(out, self.collection.as_str());
        push_text(out, "\" item=\"");
        push_text(out, self.item.as_str());
        push_text(out, "\" index=\"");
        push_text(out, self.index.as_str());
        push_text(out, "\">");
        print_seq_into(&self.childs, next_depth(d), out);
        push_indent(out, d);
        push_text(out, "</foreach>");
        assert(out@ =~= base + print_foreach(*self, d as int));
    }
}

impl NodeType {
    /// The nested XML-like form of this node, indented from depth `deep`.
    pub fn print(&self, deep: usize) -> (r: String)
        ensures
            r@ == print_node(*self, deep as int),
    {
        let mut out: Vec<char> = Vec::new();
        print_node_into(self, deep, &mut out);
        assert(out@ =~= print_node(*self, deep as int));
        crate::mapper::string_from_chars(&out)
    }
}

} // verus!
