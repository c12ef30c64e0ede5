//! The abstract diagram tree: the compiler's own representation of a
//! railroad diagram, one variant per element kind.

use vstd::prelude::*;

verus! {

/// An abstract diagram element. The set of variants is closed: the node
/// builder dispatches exhaustively over it, so a grammar rule without a
/// matching variant cannot compile.
///
/// Text payloads are fully decoded (no delimiters, no escape sequences)
/// before a node is constructed.
#[derive(Debug, PartialEq, Eq)]
pub enum Node {
    /// A fixed token or keyword, a leaf.
    Terminal(Vec<char>),
    /// A reference to another named rule, a leaf.
    NonTerminal(Vec<char>),
    /// A free-form annotation, a leaf.
    Comment(Vec<char>),
    /// The zero-width placeholder, a leaf.
    Empty,
    /// Concatenation, left to right.
    Sequence(Vec<Node>),
    /// Vertical grouping of rows sharing entry and exit.
    Stack(Vec<Node>),
    /// A branch point; children are mutually exclusive paths.
    Choice(Vec<Node>),
    /// The inner path may be skipped.
    Optional(Box<Node>),
    /// The body runs one or more times; the separator sits on the
    /// loop-back edge. Both children are always present.
    Repeat(Box<Node>, Box<Node>),
    /// The inner node wrapped in a bordered box carrying the label.
    /// Both children are always present.
    LabeledBox(Box<Node>, Box<Node>),
    /// The sentinel marking a diagram's entry rail.
    SimpleStart,
    /// The sentinel marking a diagram's exit rail.
    SimpleEnd,
    /// Stacks independent diagrams when more than one top-level
    /// expression exists.
    VerticalGrid(Vec<Node>),
}

/// The mathematical shape of a [`Node`]: the same tree over `Seq<char>`.
pub enum NodeView {
    Terminal(Seq<char>),
    NonTerminal(Seq<char>),
    Comment(Seq<char>),
    Empty,
    Sequence(Seq<NodeView>),
    Stack(Seq<NodeView>),
    Choice(Seq<NodeView>),
    Optional(Box<NodeView>),
    Repeat(Box<NodeView>, Box<NodeView>),
    LabeledBox(Box<NodeView>, Box<NodeView>),
    SimpleStart,
    SimpleEnd,
    VerticalGrid(Seq<NodeView>),
}

pub open spec fn views_of(children: Seq<Node>) -> Seq<NodeView>
    decreases children,
{
    Seq::new(
        children.len(),
        |i: int| if 0 <= i < children.len() {
            children[i]@
        } else {
            NodeView::Empty
        },
    )
}

impl View for Node {
    type V = NodeView;

    open spec fn view(&self) -> NodeView
        decreases self,
    {
        match self {
            Node::Terminal(t) => NodeView::Terminal(t@),
            Node::NonTerminal(t) => NodeView::NonTerminal(t@),
            Node::Comment(t) => NodeView::Comment(t@),
            Node::Empty => NodeView::Empty,
            Node::Sequence(cs) => NodeView::Sequence(views_of(cs@)),
            Node::Stack(cs) => NodeView::Stack(views_of(cs@)),
            Node::Choice(cs) => NodeView::Choice(views_of(cs@)),
            Node::Optional(inner) => NodeView::Optional(Box::new((**inner)@)),
            Node::Repeat(body, sep) => NodeView::Repeat(Box::new((**body)@), Box::new((**sep)@)),
            Node::LabeledBox(inner, label) => NodeView::LabeledBox(
                Box::new((**inner)@),
                Box::new((**label)@),
            ),
            Node::SimpleStart => NodeView::SimpleStart,
            Node::SimpleEnd => NodeView::SimpleEnd,
            Node::VerticalGrid(cs) => NodeView::VerticalGrid(views_of(cs@)),
        }
    }
}

} // verus!
