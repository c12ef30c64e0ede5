//! The diagram assembler: gives every top-level expression explicit
//! rail endpoints and stacks several expressions into one grid.

use vstd::prelude::*;

use crate::node::{views_of, Node, NodeView};

verus! {

/// An expression tree wrapped between its rail endpoints: a sequence
/// of exactly the start sentinel, the tree, the end sentinel.
pub open spec fn wrap_spec(n: NodeView) -> NodeView {
    NodeView::Sequence(seq![NodeView::SimpleStart, n, NodeView::SimpleEnd])
}

/// Every expression of `ns`, wrapped.
pub open spec fn wrap_all(ns: Seq<NodeView>) -> Seq<NodeView> {
    Seq::new(
        ns.len(),
        |i: int| if 0 <= i < ns.len() {
            wrap_spec(ns[i])
        } else {
            NodeView::Empty
        },
    )
}

/// The assembled root: a single expression becomes its wrapped self; two
/// or more become a vertical grid of the wrapped expressions, in source
/// order.
pub open spec fn assemble_spec(ns: Seq<NodeView>) -> NodeView {
    if ns.len() == 1 {
        wrap_spec(ns[0])
    } else {
        NodeView::VerticalGrid(wrap_all(ns))
    }
}

/// Wrap one expression tree between the start and end rail sentinels.
pub fn start_to_end(root: Node) -> (r: Node)
    ensures
        r@ == wrap_spec(root@),
{
    let ghost root_view = root@;
    let children = vec![Node::SimpleStart, root, Node::SimpleEnd];
    proof {
        assert(views_of(children@) =~= seq![
            NodeView::SimpleStart,
            root_view,
            NodeView::SimpleEnd,
        ]);
    }
    Node::Sequence(children)
}

/// Assemble the lowered top-level expressions into the diagram's root
/// node. At least one expression must be present: the grammar rejects
/// source text without one, so an empty list never reaches this point.
pub fn assemble(exprs: Vec<Node>) -> (r: Node)
    requires
        exprs@.len() >= 1,
    ensures
        r@ == assemble_spec(views_of(exprs@)),
{
    let ghost orig = exprs@;
    let mut exprs = exprs;
    if exprs.len() == 1 {
        let n = exprs.remove(0);
        proof {
            assert(views_of(orig)[0] == orig[0]@);
        }
        start_to_end(n)
    } else {
        let mut wrapped: Vec<Node> = Vec::new();
        while exprs.len() > 0
            invariant
                wrapped@.len() + exprs@.len() == orig.len(),
                exprs@ =~= orig.skip(wrapped@.len() as int),
                forall|k: int| 0 <= k < wrapped@.len() ==> (#[trigger] wrapped@[k])@ == wrap_spec(
                    orig[k]@,
                ),
            decreases exprs@.len(),
        {
            let n = exprs.remove(0);
            proof {
                assert(orig.skip(wrapped@.len() as int)[0] == orig[wrapped@.len() as int]);
            }
            let w = start_to_end(n);
            wrapped.push(w);
            proof {
                assert(exprs@ =~= orig.skip(wrapped@.len() as int));
            }
        }
        proof {
            assert(views_of(wrapped@) =~= wrap_all(views_of(orig)));
        }
        Node::VerticalGrid(wrapped)
    }
}

} // verus!
