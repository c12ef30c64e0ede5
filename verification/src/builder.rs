//! The node builder: lowers one concrete parse-tree node to one
//! abstract diagram node, children first, dispatching on the rule kind.

use vstd::prelude::*;

use crate::decode::{unescape, unescape_spec};
use crate::node::{Node, NodeView, views_of};
use crate::tree::{tree_views, tree_wf, RuleKind, Tree, TreeView};

verus! {

/// Why lowering a concrete tree halted. Neither case is reachable from
/// a tree the grammar stage produced; both guard against hand-built
/// trees that break the grammar's guarantees.
#[derive(Clone, Copy, PartialEq, Eq, Structural, Debug)]
pub enum BuildError {
    /// A literal span shorter than its two delimiters, or one whose
    /// interior ends on an unterminated escape.
    BadLiteral,
    /// An operator node without its primary operand.
    MissingOperand,
}

/// What lowering a literal leaf yields: the decoded interior, or the
/// defect when the span is too short or ends on a dangling escape.
pub open spec fn decode_leaf(text: Seq<char>) -> Result<Seq<char>, BuildError> {
    if text.len() < 2 {
        Err(BuildError::BadLiteral)
    } else {
        match unescape_spec(text.subrange(1, text.len() - 1)) {
            Some(out) => Ok(out),
            None => Err(BuildError::BadLiteral),
        }
    }
}

/// What lowering a whole concrete tree yields.
///
/// Leaves decode their literal span; `sequence`, `stack` and `choice`
/// collect their lowered children in source order; the three operator
/// kinds fold their primary operand with their second operand, each
/// under its own policy:
/// - the optional-operator wraps the primary and ignores a present
///   second operand entirely;
/// - the repeat-operator and the label-operator lower the second
///   operand and carry it as separator or label;
/// - any operator missing its second operand degenerates to its
///   primary alone, and one missing even its primary is a defect.
pub open spec fn build_spec(t: TreeView) -> Result<NodeView, BuildError>
    decreases t, 1int,
{
    match t.kind {
        RuleKind::Term => match decode_leaf(t.text) {
            Ok(s) => Ok(NodeView::Terminal(s)),
            Err(e) => Err(e),
        },
        RuleKind::NonTerm => match decode_leaf(t.text) {
            Ok(s) => Ok(NodeView::NonTerminal(s)),
            Err(e) => Err(e),
        },
        RuleKind::Comment => match decode_leaf(t.text) {
            Ok(s) => Ok(NodeView::Comment(s)),
            Err(e) => Err(e),
        },
        RuleKind::Empty => Ok(NodeView::Empty),
        RuleKind::Sequence => match build_all(t.children) {
            Ok(ns) => Ok(NodeView::Sequence(ns)),
            Err(e) => Err(e),
        },
        RuleKind::Stack => match build_all(t.children) {
            Ok(ns) => Ok(NodeView::Stack(ns)),
            Err(e) => Err(e),
        },
        RuleKind::Choice => match build_all(t.children) {
            Ok(ns) => Ok(NodeView::Choice(ns)),
            Err(e) => Err(e),
        },
        RuleKind::OptExpr => if t.children.len() == 0 {
            Err(BuildError::MissingOperand)
        } else {
            match build_spec(t.children[0]) {
                Ok(p) => if t.children.len() >= 2 {
                    Ok(NodeView::Optional(Box::new(p)))
                } else {
                    Ok(p)
                },
                Err(e) => Err(e),
            }
        },
        RuleKind::RptExpr => if t.children.len() == 0 {
            Err(BuildError::MissingOperand)
        } else {
            match build_spec(t.children[0]) {
                Ok(p) => if t.children.len() >= 2 {
                    match build_spec(t.children[1]) {
                        Ok(s) => Ok(NodeView::Repeat(Box::new(p), Box::new(s))),
                        Err(e) => Err(e),
                    }
                } else {
                    Ok(p)
                },
                Err(e) => Err(e),
            }
        },
        RuleKind::LboxExpr => if t.children.len() == 0 {
            Err(BuildError::MissingOperand)
        } else {
            match build_spec(t.children[0]) {
                Ok(p) => if t.children.len() >= 2 {
                    match build_spec(t.children[1]) {
                        Ok(s) => Ok(NodeView::LabeledBox(Box::new(p), Box::new(s))),
                        Err(e) => Err(e),
                    }
                } else {
                    Ok(p)
                },
                Err(e) => Err(e),
            }
        },
    }
}

/// Lower every tree of `ts` in order; the first defect wins.
pub open spec fn build_all(ts: Seq<TreeView>) -> Result<Seq<NodeView>, BuildError>
    decreases ts, 1int,
{
    if ts.len() == 0 {
        Ok(Seq::empty())
    } else {
        match build_spec(ts[0]) {
            Ok(n) => match build_all(ts.skip(1)) {
                Ok(rest) => Ok(seq![n] + rest),
                Err(e) => Err(e),
            },
            Err(e) => Err(e),
        }
    }
}

/// Lower a literal leaf's span.
fn decode_text(t: &Tree) -> (r: Result<Vec<char>, BuildError>)
    ensures
        match r {
            Ok(out) => decode_leaf(t@.text) == Ok::<_, BuildError>(out@),
            Err(e) => decode_leaf(t@.text) == Err::<Seq<char>, _>(e),
        },
{
    if t.text.len() < 2 {
        Err(BuildError::BadLiteral)
    } else {
        match unescape(&t.text) {
            Some(out) => Ok(out),
            None => Err(BuildError::BadLiteral),
        }
    }
}

/// Lower every child of a composite node, in source order.
fn make_children(children: &Vec<Tree>) -> (r: Result<Vec<Node>, BuildError>)
    ensures
        match r {
            Ok(ns) => build_all(tree_views(children@)) == Ok::<_, BuildError>(views_of(ns@)),
            Err(e) => build_all(tree_views(children@)) == Err::<Seq<NodeView>, _>(e),
        },
        (forall|i: int| 0 <= i < children@.len() ==> tree_wf(#[trigger] children@[i]@)) ==> r is Ok,
    decreases children@, 0int,
{
    let ghost cs = tree_views(children@);
    let mut out: Vec<Node> = Vec::new();
    let mut i: usize = 0;
    while i < children.len()
        invariant
            0 <= i <= children@.len(),
            cs == tree_views(children@),
            out@.len() == i,
            forall|k: int| 0 <= k < i ==> build_spec(cs[k]) == Ok::<_, BuildError>(
                #[trigger] out@[k]@,
            ),
        decreases children@.len() - i,
    {
        proof {
            assert(decreases_to!(children@ => children@[i as int]));
        }
        match make_node(&children[i]) {
            Ok(n) => {
                out.push(n);
            },
            Err(e) => {
                proof {
                    assert forall|k: int| 0 <= k < i implies (#[trigger] build_spec(
                        cs[k],
                    )) is Ok by {
                        assert(build_spec(cs[k]) == Ok::<_, BuildError>(out@[k]@));
                    }
                    lemma_build_all_err(cs, i as int, e);
                }
                return Err(e);
            },
        }
        i = i + 1;
    }
    proof {
        assert forall|k: int| 0 <= k < cs.len() implies build_spec(#[trigger] cs[k]) == Ok::<
            _,
            BuildError,
        >(views_of(out@)[k]) by {
            assert(build_spec(cs[k]) == Ok::<_, BuildError>(out@[k]@));
            assert(views_of(out@)[k] == out@[k]@);
        }
        lemma_build_all_ok(cs, views_of(out@));
    }
    Ok(out)
}

/// If the first `i` trees lower fine and the `i`th fails with `e`, the
/// whole list fails with `e`.
proof fn lemma_build_all_err(cs: Seq<TreeView>, i: int, e: BuildError)
    requires
        0 <= i < cs.len(),
        forall|k: int| 0 <= k < i ==> (#[trigger] build_spec(cs[k])) is Ok,
        build_spec(cs[i]) == Err::<NodeView, _>(e),
    ensures
        build_all(cs) == Err::<Seq<NodeView>, _>(e),
    decreases cs.len(),
{
    if i == 0 {
    } else {
        assert(build_spec(cs[0]) is Ok);
        lemma_build_all_err(cs.skip(1), i - 1, e);
    }
}

/// If every tree of `cs` lowers to the matching node of `ns`, the list
/// lowers to `ns`.
proof fn lemma_build_all_ok(cs: Seq<TreeView>, ns: Seq<NodeView>)
    requires
        cs.len() == ns.len(),
        forall|k: int| 0 <= k < cs.len() ==> build_spec(#[trigger] cs[k]) == Ok::<_, BuildError>(
            ns[k],
        ),
    ensures
        build_all(cs) == Ok::<_, BuildError>(ns),
    decreases cs.len(),
{
    if cs.len() == 0 {
        assert(ns =~= Seq::<NodeView>::empty());
    } else {
        lemma_build_all_ok(cs.skip(1), ns.skip(1));
        assert(ns =~= seq![ns[0]] + ns.skip(1));
    }
}

/// Fold an optional-operator node: wrap the primary operand in
/// [`Node::Optional`]; a second operand present in the source is
/// ignored — not lowered, not retained.
pub fn fold_optional(t: &Tree) -> (r: Result<Node, BuildError>)
    requires
        t.kind == RuleKind::OptExpr,
    ensures
        result_view(r) == build_spec(t@),
        tree_wf(t@) ==> r is Ok,
    decreases t, 0int,
{
    if t.children.len() == 0 {
        return Err(BuildError::MissingOperand);
    }
    proof {
        assert(decreases_to!(t => t.children@[0]));
    }
    let primary = match make_node(&t.children[0]) {
        Ok(n) => n,
        Err(e) => {
            return Err(e);
        },
    };
    if t.children.len() >= 2 {
        Ok(Node::Optional(Box::new(primary)))
    } else {
        Ok(primary)
    }
}

/// Fold a repeat-operator node: the primary operand becomes the body
/// and the lowered second operand the separator of a [`Node::Repeat`].
pub fn fold_repeat(t: &Tree) -> (r: Result<Node, BuildError>)
    requires
        t.kind == RuleKind::RptExpr,
    ensures
        result_view(r) == build_spec(t@),
        tree_wf(t@) ==> r is Ok,
    decreases t, 0int,
{
    if t.children.len() == 0 {
        return Err(BuildError::MissingOperand);
    }
    proof {
        assert(decreases_to!(t => t.children@[0]));
    }
    let primary = match make_node(&t.children[0]) {
        Ok(n) => n,
        Err(e) => {
            return Err(e);
        },
    };
    if t.children.len() >= 2 {
        proof {
            assert(decreases_to!(t => t.children@[1]));
        }
        match make_node(&t.children[1]) {
            Ok(sep) => Ok(Node::Repeat(Box::new(primary), Box::new(sep))),
            Err(e) => Err(e),
        }
    } else {
        Ok(primary)
    }
}

/// Fold a label-operator node: the primary operand becomes the inner
/// node and the lowered second operand the label of a
/// [`Node::LabeledBox`].
pub fn fold_labeled(t: &Tree) -> (r: Result<Node, BuildError>)
    requires
        t.kind == RuleKind::LboxExpr,
    ensures
        result_view(r) == build_spec(t@),
        tree_wf(t@) ==> r is Ok,
    decreases t, 0int,
{
    if t.children.len() == 0 {
        return Err(BuildError::MissingOperand);
    }
    proof {
        assert(decreases_to!(t => t.children@[0]));
    }
    let primary = match make_node(&t.children[0]) {
        Ok(n) => n,
        Err(e) => {
            return Err(e);
        },
    };
    if t.children.len() >= 2 {
        proof {
            assert(decreases_to!(t => t.children@[1]));
        }
        match make_node(&t.children[1]) {
            Ok(label) => Ok(Node::LabeledBox(Box::new(primary), Box::new(label))),
            Err(e) => Err(e),
        }
    } else {
        Ok(primary)
    }
}

/// The view of a lowering result.
pub open spec fn result_view(r: Result<Node, BuildError>) -> Result<NodeView, BuildError> {
    match r {
        Ok(n) => Ok(n@),
        Err(e) => Err(e),
    }
}

/// Lower one concrete parse-tree node to one abstract diagram node,
/// children first. The dispatch is exhaustive over [`RuleKind`]; on a
/// tree satisfying the grammar's guarantees ([`tree_wf`]) it cannot
/// fail.
pub fn make_node(t: &Tree) -> (r: Result<Node, BuildError>)
    ensures
        result_view(r) == build_spec(t@),
        tree_wf(t@) ==> r is Ok,
    decreases t, 1int,
{
    match t.kind {
        RuleKind::Term => match decode_text(t) {
            Ok(s) => Ok(Node::Terminal(s)),
            Err(e) => Err(e),
        },
        RuleKind::NonTerm => match decode_text(t) {
            Ok(s) => Ok(Node::NonTerminal(s)),
            Err(e) => Err(e),
        },
        RuleKind::Comment => match decode_text(t) {
            Ok(s) => Ok(Node::Comment(s)),
            Err(e) => Err(e),
        },
        RuleKind::Empty => Ok(Node::Empty),
        RuleKind::Sequence => {
            proof {
                assert(decreases_to!(t => t.children@));
                if tree_wf(t@) {
                    assert forall|i: int|
                        0 <= i < t.children@.len() implies tree_wf(
                        #[trigger] t.children@[i]@,
                    ) by {
                        assert(tree_wf(t@.children[i]));
                    }
                }
            }
            match make_children(&t.children) {
                Ok(ns) => Ok(Node::Sequence(ns)),
                Err(e) => Err(e),
            }
        },
        RuleKind::Stack => {
            proof {
                assert(decreases_to!(t => t.children@));
                if tree_wf(t@) {
                    assert forall|i: int|
                        0 <= i < t.children@.len() implies tree_wf(
                        #[trigger] t.children@[i]@,
                    ) by {
                        assert(tree_wf(t@.children[i]));
                    }
                }
            }
            match make_children(&t.children) {
                Ok(ns) => Ok(Node::Stack(ns)),
                Err(e) => Err(e),
            }
        },
        RuleKind::Choice => {
            proof {
                assert(decreases_to!(t => t.children@));
                if tree_wf(t@) {
                    assert forall|i: int|
                        0 <= i < t.children@.len() implies tree_wf(
                        #[trigger] t.children@[i]@,
                    ) by {
                        assert(tree_wf(t@.children[i]));
                    }
                }
            }
            match make_children(&t.children) {
                Ok(ns) => Ok(Node::Choice(ns)),
                Err(e) => Err(e),
            }
        },
        RuleKind::OptExpr => fold_optional(t),
        RuleKind::RptExpr => fold_repeat(t),
        RuleKind::LboxExpr => fold_labeled(t),
    }
}

/// Every concrete tree satisfying the grammar's guarantees lowers
/// without a defect.
pub proof fn lemma_wf_builds(t: TreeView)
    requires
        tree_wf(t),
    ensures
        build_spec(t) is Ok,
    decreases t, 1int,
{
    match t.kind {
        RuleKind::Term | RuleKind::NonTerm | RuleKind::Comment => {
        },
        RuleKind::Empty => {
        },
        RuleKind::Sequence | RuleKind::Stack | RuleKind::Choice => {
            lemma_wf_builds_all(t.children);
        },
        RuleKind::OptExpr | RuleKind::RptExpr | RuleKind::LboxExpr => {
            lemma_wf_builds(t.children[0]);
            lemma_wf_builds(t.children[1]);
        },
    }
}

/// A list of trees satisfying the grammar's guarantees lowers without
/// a defect.
pub proof fn lemma_wf_builds_all(ts: Seq<TreeView>)
    requires
        forall|i: int| 0 <= i < ts.len() ==> tree_wf(#[trigger] ts[i]),
    ensures
        build_all(ts) is Ok,
    decreases ts, 0int,
{
    if ts.len() > 0 {
        lemma_wf_builds(ts[0]);
        assert forall|i: int| 0 <= i < ts.skip(1).len() implies tree_wf(
            #[trigger] ts.skip(1)[i],
        ) by {
            assert(ts.skip(1)[i] == ts[i + 1]);
        }
        lemma_wf_builds_all(ts.skip(1));
    }
}

/// The repeat-operator always yields a repeat node with both its body
/// and its separator present: the grammar guarantees the second
/// operand, and lowering carries it into the separator field.
pub proof fn lemma_repeat_has_separator(t: TreeView)
    requires
        t.kind == RuleKind::RptExpr,
        tree_wf(t),
    ensures
        build_spec(t) == Ok::<_, BuildError>(
            NodeView::Repeat(
                Box::new(build_spec(t.children[0]).unwrap()),
                Box::new(build_spec(t.children[1]).unwrap()),
            ),
        ),
{
    lemma_wf_builds(t.children[0]);
    lemma_wf_builds(t.children[1]);
}

/// The label-operator always yields a labeled box with both its inner
/// node and its label present, for the same reason.
pub proof fn lemma_labeled_has_label(t: TreeView)
    requires
        t.kind == RuleKind::LboxExpr,
        tree_wf(t),
    ensures
        build_spec(t) == Ok::<_, BuildError>(
            NodeView::LabeledBox(
                Box::new(build_spec(t.children[0]).unwrap()),
                Box::new(build_spec(t.children[1]).unwrap()),
            ),
        ),
{
    lemma_wf_builds(t.children[0]);
    lemma_wf_builds(t.children[1]);
}

/// The optional-operator wraps only its primary operand; the second
/// operand leaves no trace in the result: two optional constructs
/// sharing a primary lower identically, whatever their second
/// operands hold.
pub proof fn lemma_optional_discards_second(t: TreeView, u: TreeView)
    requires
        t.kind == RuleKind::OptExpr,
        u.kind == RuleKind::OptExpr,
        tree_wf(t),
        tree_wf(u),
        t.children[0] == u.children[0],
    ensures
        build_spec(t) == build_spec(u),
        build_spec(t) == Ok::<_, BuildError>(
            NodeView::Optional(Box::new(build_spec(t.children[0]).unwrap())),
        ),
{
    lemma_wf_builds(t.children[0]);
}

} // verus!

