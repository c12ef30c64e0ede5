//! The concrete parse tree: what the grammar stage hands to the node
//! builder. Each node carries the grammar rule it was matched by, the
//! raw source span for literal-bearing leaves, and the child nodes in
//! source order.

use vstd::prelude::*;

use crate::decode::unescape_spec;

verus! {

/// The kind of a concrete parse-tree node: one per grammar rule that
/// produces a diagram element.
#[derive(Clone, Copy, PartialEq, Eq, Structural, Debug)]
pub enum RuleKind {
    /// A single-quoted literal; becomes a terminal.
    Term,
    /// A double-quoted literal; becomes a non-terminal.
    NonTerm,
    /// A backquoted literal; becomes a comment.
    Comment,
    /// The explicit empty marker, or an operand the grammar filled in.
    Empty,
    /// Two or more juxtaposed items.
    Sequence,
    /// A braced, comma-separated list.
    Stack,
    /// A parenthesised, bar-separated list of two or more alternatives.
    Choice,
    /// A primary followed by the optional-operator.
    OptExpr,
    /// A primary followed by the repeat-operator.
    RptExpr,
    /// A primary followed by the label-operator.
    LboxExpr,
}

/// A concrete parse-tree node. For literal-bearing leaves `text` holds
/// the raw span, opening and closing delimiter included, exactly as it
/// stood in the source; for every other kind it is empty.
#[derive(Debug, PartialEq, Eq)]
pub struct Tree {
    pub kind: RuleKind,
    pub text: Vec<char>,
    pub children: Vec<Tree>,
}

/// The mathematical shape of a [`Tree`].
pub struct TreeView {
    pub kind: RuleKind,
    pub text: Seq<char>,
    pub children: Seq<TreeView>,
}

/// The views of a list of concrete trees.
pub open spec fn tree_views(children: Seq<Tree>) -> Seq<TreeView>
    decreases children,
{
    Seq::new(
        children.len(),
        |i: int| if 0 <= i < children.len() {
            children[i]@
        } else {
            TreeView { kind: RuleKind::Empty, text: Seq::empty(), children: Seq::empty() }
        },
    )
}

impl View for Tree {
    type V = TreeView;

    open spec fn view(&self) -> TreeView
        decreases self,
    {
        TreeView { kind: self.kind, text: self.text@, children: tree_views(self.children@) }
    }
}

/// A leaf of the concrete tree.
pub open spec fn leaf_view(kind: RuleKind, text: Seq<char>) -> TreeView {
    TreeView { kind, text, children: Seq::empty() }
}

/// An interior node of the concrete tree.
pub open spec fn branch_view(kind: RuleKind, children: Seq<TreeView>) -> TreeView {
    TreeView { kind, text: Seq::empty(), children }
}

/// A raw literal span is well formed when both delimiters are present
/// and its interior decodes: no escape is left dangling at the end.
pub open spec fn lit_wf(text: Seq<char>) -> bool {
    &&& text.len() >= 2
    &&& unescape_spec(text.subrange(1, text.len() - 1)) is Some
}

/// What the grammar guarantees of every concrete tree it emits: literal
/// leaves carry a decodable span, leaves have no children, and every
/// operator node carries exactly its primary and its second operand.
pub open spec fn tree_wf(t: TreeView) -> bool
    decreases t,
{
    match t.kind {
        RuleKind::Term | RuleKind::NonTerm | RuleKind::Comment => {
            &&& lit_wf(t.text)
            &&& t.children.len() == 0
        },
        RuleKind::Empty => t.children.len() == 0,
        RuleKind::Sequence | RuleKind::Stack | RuleKind::Choice => forall|i: int|
            0 <= i < t.children.len() ==> tree_wf(#[trigger] t.children[i]),
        RuleKind::OptExpr | RuleKind::RptExpr | RuleKind::LboxExpr => {
            &&& t.children.len() == 2
            &&& tree_wf(t.children[0])
            &&& tree_wf(t.children[1])
        },
    }
}

} // verus!
