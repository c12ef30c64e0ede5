//! The rendering boundary: the abstract diagram tree is handed to the
//! `railroad` crate, which computes pixel geometry and serializes SVG
//! markup. Every call into `railroad` stands behind a trusted item
//! here; the recursive conversion of the tree itself is verified.

use vstd::prelude::*;

use crate::node::{views_of, Node, NodeView};

verus! {

/// One `railroad` element tree, held opaquely.
#[verifier::external_body]
pub struct RrNode {
    inner: Box<dyn railroad::Node>,
}

/// The abstract tree a [`RrNode`] stands for.
pub uninterp spec fn rr_node_rep(n: RrNode) -> NodeView;

/// The abstract trees a list of [`RrNode`]s stands for.
pub open spec fn reps_of(cs: Seq<RrNode>) -> Seq<NodeView> {
    Seq::new(
        cs.len(),
        |i: int| if 0 <= i < cs.len() {
            rr_node_rep(cs[i])
        } else {
            NodeView::Empty
        },
    )
}

/// A `railroad` diagram: a root tree plus added style elements, held
/// opaquely.
#[verifier::external_body]
pub struct RrDiagram {
    inner: railroad::Diagram<Box<dyn railroad::Node>>,
}

/// The abstract tree at a diagram's root.
pub uninterp spec fn rr_diagram_root(d: RrDiagram) -> NodeView;

/// The texts of the style elements added to a diagram so far, one
/// entry per added element, in order.
pub uninterp spec fn rr_diagram_styles(d: RrDiagram) -> Seq<Seq<char>>;

/// The total width `railroad` computes for a diagram: a pure function
/// of the root tree (its structure and label text alone).
pub uninterp spec fn rr_width(root: NodeView) -> int;

/// The total height `railroad` computes for a diagram: a pure function
/// of the root tree.
pub uninterp spec fn rr_height(root: NodeView) -> int;

/// The SVG markup `railroad` serializes for a diagram: a pure function
/// of the root tree and the sequence of added style texts.
pub uninterp spec fn rr_svg(root: NodeView, styles: Seq<Seq<char>>) -> Seq<char>;

/// Relies on `railroad::Terminal::new`: a terminal leaf carrying the
/// given label.
#[verifier::external_body]
fn rr_terminal(text: Vec<char>) -> (r: RrNode)
    ensures
        rr_node_rep(r) == NodeView::Terminal(text@),
{
    let label: String = text.into_iter().collect();
    RrNode { inner: Box::new(railroad::Terminal::new(label)) }
}

/// Relies on `railroad::NonTerminal::new`: a non-terminal leaf
/// carrying the given label.
#[verifier::external_body]
fn rr_nonterminal(text: Vec<char>) -> (r: RrNode)
    ensures
        rr_node_rep(r) == NodeView::NonTerminal(text@),
{
    let label: String = text.into_iter().collect();
    RrNode { inner: Box::new(railroad::NonTerminal::new(label)) }
}

/// Relies on `railroad::Comment::new`: a comment leaf carrying the
/// given text.
#[verifier::external_body]
fn rr_comment(text: Vec<char>) -> (r: RrNode)
    ensures
        rr_node_rep(r) == NodeView::Comment(text@),
{
    let label: String = text.into_iter().collect();
    RrNode { inner: Box::new(railroad::Comment::new(label)) }
}

/// Relies on `railroad::Empty`: the zero-width element.
#[verifier::external_body]
fn rr_empty() -> (r: RrNode)
    ensures
        rr_node_rep(r) == NodeView::Empty,
{
    RrNode { inner: Box::new(railroad::Empty) }
}

/// Relies on `railroad::SimpleStart`: the entry-rail sentinel.
#[verifier::external_body]
fn rr_simple_start() -> (r: RrNode)
    ensures
        rr_node_rep(r) == NodeView::SimpleStart,
{
    RrNode { inner: Box::new(railroad::SimpleStart) }
}

/// Relies on `railroad::SimpleEnd`: the exit-rail sentinel.
#[verifier::external_body]
fn rr_simple_end() -> (r: RrNode)
    ensures
        rr_node_rep(r) == NodeView::SimpleEnd,
{
    RrNode { inner: Box::new(railroad::SimpleEnd) }
}

/// Relies on `railroad::Sequence::new`: its children in order.
#[verifier::external_body]
fn rr_sequence(children: Vec<RrNode>) -> (r: RrNode)
    ensures
        rr_node_rep(r) == NodeView::Sequence(reps_of(children@)),
{
    let inner: Vec<Box<dyn railroad::Node>> = children.into_iter().map(|c| c.inner).collect();
    RrNode { inner: Box::new(railroad::Sequence::new(inner)) }
}

/// Relies on `railroad::Stack::new`: its children in order.
#[verifier::external_body]
fn rr_stack(children: Vec<RrNode>) -> (r: RrNode)
    ensures
        rr_node_rep(r) == NodeView::Stack(reps_of(children@)),
{
    let inner: Vec<Box<dyn railroad::Node>> = children.into_iter().map(|c| c.inner).collect();
    RrNode { inner: Box::new(railroad::Stack::new(inner)) }
}

/// Relies on `railroad::Choice::new`: its children in order.
#[verifier::external_body]
fn rr_choice(children: Vec<RrNode>) -> (r: RrNode)
    ensures
        rr_node_rep(r) == NodeView::Choice(reps_of(children@)),
{
    let inner: Vec<Box<dyn railroad::Node>> = children.into_iter().map(|c| c.inner).collect();
    RrNode { inner: Box::new(railroad::Choice::new(inner)) }
}

/// Relies on `railroad::VerticalGrid::new`: its children in order.
#[verifier::external_body]
fn rr_vertical_grid(children: Vec<RrNode>) -> (r: RrNode)
    ensures
        rr_node_rep(r) == NodeView::VerticalGrid(reps_of(children@)),
{
    let inner: Vec<Box<dyn railroad::Node>> = children.into_iter().map(|c| c.inner).collect();
    RrNode { inner: Box::new(railroad::VerticalGrid::new(inner)) }
}

/// Relies on `railroad::Optional::new`: wraps the inner element.
#[verifier::external_body]
fn rr_optional(inner: RrNode) -> (r: RrNode)
    ensures
        rr_node_rep(r) == NodeView::Optional(Box::new(rr_node_rep(inner))),
{
    RrNode { inner: Box::new(railroad::Optional::new(inner.inner)) }
}

/// Relies on `railroad::Repeat::new`: a body with a separator on the
/// loop-back edge.
#[verifier::external_body]
fn rr_repeat(body: RrNode, separator: RrNode) -> (r: RrNode)
    ensures
        rr_node_rep(r) == NodeView::Repeat(
            Box::new(rr_node_rep(body)),
            Box::new(rr_node_rep(separator)),
        ),
{
    RrNode { inner: Box::new(railroad::Repeat::new(body.inner, separator.inner)) }
}

/// Relies on `railroad::LabeledBox::new`: an inner element in a
/// bordered box with a label.
#[verifier::external_body]
fn rr_labeled_box(inner: RrNode, label: RrNode) -> (r: RrNode)
    ensures
        rr_node_rep(r) == NodeView::LabeledBox(
            Box::new(rr_node_rep(inner)),
            Box::new(rr_node_rep(label)),
        ),
{
    RrNode { inner: Box::new(railroad::LabeledBox::new(inner.inner, label.inner)) }
}

/// Relies on `railroad::Diagram::new`: a diagram with the given root,
/// the crate's default padding, and no extra elements yet.
#[verifier::external_body]
pub fn rr_diagram_new(root: RrNode) -> (d: RrDiagram)
    ensures
        rr_diagram_root(d) == rr_node_rep(root),
        rr_diagram_styles(d) == Seq::<Seq<char>>::empty(),
{
    RrDiagram { inner: railroad::Diagram::new(root.inner) }
}

/// Relies on `railroad::Diagram::add_css`: appends one `<style>`
/// element carrying the text verbatim; the root is untouched.
#[verifier::external_body]
pub fn rr_diagram_add_css(d: &mut RrDiagram, css: &str)
    ensures
        rr_diagram_root(*final(d)) == rr_diagram_root(*old(d)),
        rr_diagram_styles(*final(d)) == rr_diagram_styles(*old(d)).push(css@),
{
    d.inner.add_css(css);
}

/// Relies on the `railroad::Node` impl for `railroad::Diagram`: the
/// width is the root's width plus the fixed padding, a pure function
/// of the root tree. Every element's width is a sum or maximum of
/// non-negative terms and the padding is positive, so the total is
/// positive.
#[verifier::external_body]
pub fn rr_diagram_width(d: &RrDiagram) -> (w: i64)
    ensures
        w == rr_width(rr_diagram_root(*d)),
        0 < w,
{
    railroad::Node::width(&d.inner)
}

/// Relies on the `railroad::Node` impl for `railroad::Diagram`: the
/// height is the root's height plus the fixed padding, a pure function
/// of the root tree. Every element's height is a sum or maximum of
/// non-negative terms and the padding is positive, so the total is
/// positive.
#[verifier::external_body]
pub fn rr_diagram_height(d: &RrDiagram) -> (h: i64)
    ensures
        h == rr_height(rr_diagram_root(*d)),
        0 < h,
{
    railroad::Node::height(&d.inner)
}

/// Relies on the `Display` impl of `railroad::Diagram`: one `<style>`
/// element is written per added text, attributes in sorted order, so
/// the SVG markup is a pure function of the root tree and the sequence
/// of added style texts.
#[verifier::external_body]
pub fn rr_diagram_svg(d: &RrDiagram) -> (r: String)
    ensures
        r@ == rr_svg(rr_diagram_root(*d), rr_diagram_styles(*d)),
{
    format!("{}", d.inner)
}

/// Copy a label out of the tree.
fn copy_chars(v: &Vec<char>) -> (r: Vec<char>)
    ensures
        r@ == v@,
{
    let mut out: Vec<char> = Vec::new();
    let mut i: usize = 0;
    while i < v.len()
        invariant
            0 <= i <= v@.len(),
            out@ =~= v@.subrange(0, i as int),
        decreases v@.len() - i,
    {
        out.push(v[i]);
        proof {
            assert(out@ =~= v@.subrange(0, i + 1 as int));
        }
        i = i + 1;
    }
    proof {
        assert(out@ =~= v@);
    }
    out
}

/// Convert every node of a list.
fn to_rr_all(cs: &Vec<Node>) -> (r: Vec<RrNode>)
    ensures
        reps_of(r@) == views_of(cs@),
    decreases cs@, 0int,
{
    let mut out: Vec<RrNode> = Vec::new();
    let mut i: usize = 0;
    while i < cs.len()
        invariant
            0 <= i <= cs@.len(),
            out@.len() == i,
            forall|k: int| 0 <= k < i ==> rr_node_rep(#[trigger] out@[k]) == cs@[k]@,
        decreases cs@.len() - i,
    {
        proof {
            assert(decreases_to!(cs@ => cs@[i as int]));
        }
        let n = to_rr(&cs[i]);
        out.push(n);
        i = i + 1;
    }
    proof {
        assert(reps_of(out@) =~= views_of(cs@));
    }
    out
}

/// Build the `railroad` element tree that stands for the given
/// abstract tree, one library element per abstract node.
pub fn to_rr(n: &Node) -> (r: RrNode)
    ensures
        rr_node_rep(r) == n@,
    decreases n, 1int,
{
    match n {
        Node::Terminal(t) => rr_terminal(copy_chars(t)),
        Node::NonTerminal(t) => rr_nonterminal(copy_chars(t)),
        Node::Comment(t) => rr_comment(copy_chars(t)),
        Node::Empty => rr_empty(),
        Node::Sequence(cs) => {
            proof {
                assert(decreases_to!(n => cs@));
            }
            rr_sequence(to_rr_all(cs))
        },
        Node::Stack(cs) => {
            proof {
                assert(decreases_to!(n => cs@));
            }
            rr_stack(to_rr_all(cs))
        },
        Node::Choice(cs) => {
            proof {
                assert(decreases_to!(n => cs@));
            }
            rr_choice(to_rr_all(cs))
        },
        Node::Optional(inner) => rr_optional(to_rr(inner)),
        Node::Repeat(body, sep) => {
            let b = to_rr(body);
            let s = to_rr(sep);
            rr_repeat(b, s)
        },
        Node::LabeledBox(inner, label) => {
            let b = to_rr(inner);
            let l = to_rr(label);
            rr_labeled_box(b, l)
        },
        Node::SimpleStart => rr_simple_start(),
        Node::SimpleEnd => rr_simple_end(),
        Node::VerticalGrid(cs) => {
            proof {
                assert(decreases_to!(n => cs@));
            }
            rr_vertical_grid(to_rr_all(cs))
        },
    }
}

} // verus!
