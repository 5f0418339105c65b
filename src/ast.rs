//! A position-annotated syntax tree of a Markdown document.
use vstd::prelude::*;
use crate::position::Position;
use markdown::mdast::Node;

verus! {

broadcast use vstd::std_specs::vec::group_vec_axioms;

#[derive(Debug, Clone, Copy, PartialEq, Eq, Structural)]
pub enum NodeKind {
    Heading,
    Text,
    Other,
}

/// One node of the tree; a parent's span holds those of its children.
#[derive(Debug)]
pub struct MdNode {
    pub kind: NodeKind,
    /// The text of a text node; empty for the other kinds.
    pub value: String,
    pub position: Option<Position>,
    pub children: Vec<MdNode>,
}

/// The span of a node, or the empty span at the start of the text where the
/// node has none.
pub open spec fn span_of(n: MdNode) -> Position {
    match n.position {
        Some(p) => p,
        None => Position::zero(),
    }
}

/// The spans of the headings under `n`, `n` included, parents before
/// children and siblings in order.
pub open spec fn headings_of(n: MdNode) -> Seq<Position>
    decreases n,
{
    let own = if n.kind == NodeKind::Heading {
        seq![span_of(n)]
    } else {
        Seq::empty()
    };
    own + headings_of_list(n.children@)
}

pub open spec fn headings_of_list(s: Seq<MdNode>) -> Seq<Position>
    decreases s,
{
    if s.len() == 0 {
        Seq::empty()
    } else {
        headings_of_list(s.drop_last()) + headings_of(s.last())
    }
}

/// The tree that the GitHub-flavoured Markdown parser builds for a text.
pub uninterp spec fn gfm_tree(text: Seq<char>) -> MdNode;

#[verifier::external_type_specification]
#[verifier::external_body]
pub struct ExMdastNode(Node);

/// Relies on markdown::to_mdast with the GFM options, which never fails on
/// Markdown without MDX (as its documentation states), and on the conversion
/// below; the tree depends on the text alone.
#[verifier::external_body]
pub fn parse_gfm(text: &str) -> (r: MdNode)
    ensures
        r == gfm_tree(text@),
{
    let ast = markdown::to_mdast(text, &markdown::ParseOptions::gfm()).unwrap();
    mdast_to_tree(&ast)
}

/// Relies on markdown::mdast::Node::position and Node::children: copies the
/// kind, text, span and children of each node, one for one.
#[verifier::external_body]
fn mdast_to_tree(n: &Node) -> MdNode {
    let (kind, value) = match n {
        Node::Heading(_) => (NodeKind::Heading, String::new()),
        Node::Text(t) => (NodeKind::Text, t.value.clone()),
        _ => (NodeKind::Other, String::new()),
    };
    let position = n.position().map(
        |p| Position::new(p.start.line, p.start.column, p.start.offset, p.end.line, p.end.column, p.end.offset),
    );
    let children = n.children().map_or(Vec::new(), |cs| cs.iter().map(mdast_to_tree).collect());
    MdNode { kind, value, position, children }
}

fn span_or_zero(n: &MdNode) -> (r: Position)
    ensures
        r == span_of(*n),
{
    match n.position {
        Some(p) => p,
        None => Position::new(1, 1, 0, 1, 1, 0),
    }
}

/// Appends the spans of the headings under `n` in document order.
pub fn collect_headings(n: &MdNode, out: &mut Vec<Position>)
    ensures
        final(out)@ == old(out)@ + headings_of(*n),
    decreases n,
{
    if n.kind == NodeKind::Heading {
        out.push(span_or_zero(n));
    }
    let ghost base = out@;
    let mut i: usize = 0;
    while i < n.children.len()
        invariant
            i <= n.children@.len(),
            out@ == base + headings_of_list(n.children@.subrange(0, i as int)),
        decreases n.children@.len() - i,
    {
        proof {
            assert(n.children@.subrange(0, i as int + 1).drop_last() =~= n.children@.subrange(0, i as int));
        }
        collect_headings(&n.children[i], out);
        assert(out@ =~= base + headings_of_list(n.children@.subrange(0, i as int + 1)));
        i = i + 1;
    }
    assert(n.children@.subrange(0, n.children@.len() as int) =~= n.children@);
    assert(out@ =~= old(out)@ + headings_of(*n));
}

/// The spans of the headings of a tree, in document order.
pub fn headings(n: &MdNode) -> (r: Vec<Position>)
    ensures
        r@ == headings_of(*n),
{
    let mut r = Vec::new();
    collect_headings(n, &mut r);
    assert(r@ =~= headings_of(*n));
    r
}

/// A text node: its text and its span.
#[derive(Debug, Clone)]
pub struct TextNode {
    pub value: String,
    pub position: Option<Position>,
}

/// The text nodes under `n`, `n` included, in document order.
pub open spec fn texts_of(n: MdNode) -> Seq<(Seq<char>, Option<Position>)>
    decreases n,
{
    let own = if n.kind == NodeKind::Text {
        seq![(n.value@, n.position)]
    } else {
        Seq::empty()
    };
    own + texts_of_list(n.children@)
}

pub open spec fn texts_of_list(s: Seq<MdNode>) -> Seq<(Seq<char>, Option<Position>)>
    decreases s,
{
    if s.len() == 0 {
        Seq::empty()
    } else {
        texts_of_list(s.drop_last()) + texts_of(s.last())
    }
}

pub open spec fn text_node_views(v: Seq<TextNode>) -> Seq<(Seq<char>, Option<Position>)> {
    v.map_values(|t: TextNode| (t.value@, t.position))
}

/// Appends the text nodes under `n` in document order.
pub fn collect_text_nodes(n: &MdNode, out: &mut Vec<TextNode>)
    ensures
        text_node_views(final(out)@) == text_node_views(old(out)@) + texts_of(*n),
    decreases n,
{
    let ghost start = text_node_views(out@);
    if n.kind == NodeKind::Text {
        let ghost before = out@;
        out.push(TextNode { value: n.value.clone(), position: n.position });
        assert(text_node_views(out@) =~= text_node_views(before).push((n.value@, n.position)));
    }
    let ghost base = text_node_views(out@);
    assert(base =~= start + (if n.kind == NodeKind::Text { seq![(n.value@, n.position)] } else { Seq::empty() }));
    let mut i: usize = 0;
    while i < n.children.len()
        invariant
            i <= n.children@.len(),
            text_node_views(out@) == base + texts_of_list(n.children@.subrange(0, i as int)),
        decreases n.children@.len() - i,
    {
        assert(n.children@.subrange(0, i as int + 1).drop_last() =~= n.children@.subrange(0, i as int));
        collect_text_nodes(&n.children[i], out);
        assert(text_node_views(out@) =~= base + texts_of_list(n.children@.subrange(0, i as int + 1)));
        i = i + 1;
    }
    assert(n.children@.subrange(0, n.children@.len() as int) =~= n.children@);
    assert(text_node_views(out@) =~= start + texts_of(*n));
}

/// The text nodes of a tree, in document order.
pub fn text_nodes(n: &MdNode) -> (r: Vec<TextNode>)
    ensures
        text_node_views(r@) == texts_of(*n),
{
    let mut r = Vec::new();
    assert(text_node_views(r@) =~= Seq::empty());
    collect_text_nodes(n, &mut r);
    assert(text_node_views(r@) =~= texts_of(*n));
    r
}

} // verus!
