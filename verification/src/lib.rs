//! A compiler for a small textual language describing railroad
//! (syntax) diagrams. Source text is parsed into concrete trees
//! ([`parse`]), each tree is lowered to an abstract diagram node
//! ([`builder`]), the lowered expressions are assembled into one root
//! with explicit rail endpoints ([`assemble`]), and the result is
//! handed to the `railroad` crate ([`render`]) for geometry and SVG
//! markup.

use vstd::prelude::*;

pub mod assemble;
pub mod builder;
pub mod decode;
pub mod node;
pub mod parse;
pub mod render;
pub mod tree;

use vstd::pervasive::unreached;
use vstd::string::StrSliceExecFns;

use crate::assemble::{assemble, assemble_spec, wrap_all, wrap_spec};
use crate::builder::{build_spec, make_node, BuildError};
use crate::node::{views_of, Node, NodeView};
use crate::parse::{err_located, parse, sp_input, ParseError};
use crate::render::{
    rr_diagram_add_css, rr_diagram_height, rr_diagram_new, rr_diagram_root, rr_diagram_styles,
    rr_diagram_svg, rr_diagram_width, rr_height, rr_svg, rr_width, to_rr, RrDiagram,
};
use crate::tree::{tree_views, tree_wf, TreeView};

verus! {

/// A compiled diagram: the abstract tree at its root, the rendered
/// `railroad` diagram, and the geometry computed for it once, at
/// compile time.
pub struct Diagram {
    /// Total width in pixels, as the renderer computed it.
    pub width: i64,
    /// Total height in pixels, as the renderer computed it.
    pub height: i64,
    /// The assembled abstract tree the diagram was rendered from.
    pub root: Node,
    /// The rendered diagram, ready to serialize.
    pub diagram: RrDiagram,
}

impl Diagram {
    /// The rendered diagram holds exactly the tree in `root`.
    pub open spec fn wf(self) -> bool {
        rr_diagram_root(self.diagram) == self.root@
    }

    /// Serialize the diagram to SVG markup.
    pub fn svg(&self) -> (r: String)
        ensures
            r@ == rr_svg(rr_diagram_root(self.diagram), rr_diagram_styles(self.diagram)),
            self.wf() ==> r@ == rr_svg(self.root@, rr_diagram_styles(self.diagram)),
    {
        rr_diagram_svg(&self.diagram)
    }
}

/// The lowered top-level expressions of a well-formed source: each
/// concrete tree's abstract node, in source order.
pub open spec fn built_views(ts: Seq<TreeView>) -> Seq<NodeView> {
    Seq::new(
        ts.len(),
        |i: int| if 0 <= i < ts.len() {
            match build_spec(ts[i]) {
                Ok(n) => n,
                Err(_) => NodeView::Empty,
            }
        } else {
            NodeView::Empty
        },
    )
}

/// The diagram root a well-formed source compiles to: its top-level
/// expressions, lowered and assembled.
pub open spec fn compiled_root(s: Seq<char>) -> NodeView {
    assemble_spec(built_views(sp_input(s).unwrap()))
}

/// Everything a successful compilation promises: the source matches
/// the grammar, the root is its assembled tree, the geometry is the
/// renderer's for that root and positive, and the rendered diagram
/// carries exactly that root and exactly one appended style element
/// holding the given style text verbatim.
pub open spec fn compiled_to(src: Seq<char>, css: Seq<char>, d: Diagram) -> bool {
    &&& sp_input(src) is Some
    &&& d.root@ == compiled_root(src)
    &&& d.width == rr_width(compiled_root(src))
    &&& d.height == rr_height(compiled_root(src))
    &&& 0 < d.width
    &&& 0 < d.height
    &&& d.wf()
    &&& rr_diagram_styles(d.diagram) == seq![css]
}

/// The characters of the source text.
fn chars_of(src: &str) -> (r: Vec<char>)
    ensures
        r@ == src@,
{
    let n = src.unicode_len();
    let mut out: Vec<char> = Vec::new();
    let mut i: usize = 0;
    while i < n
        invariant
            0 <= i <= n,
            n == src@.len(),
            out@ =~= src@.subrange(0, i as int),
        decreases n - i,
    {
        out.push(src.get_char(i));
        proof {
            assert(out@ =~= src@.subrange(0, i + 1 as int));
        }
        i = i + 1;
    }
    proof {
        assert(out@ =~= src@);
    }
    out
}

/// Compile diagram source text, with the given style text, to a
/// rendered diagram.
///
/// Succeeds exactly when the grammar matches the whole source; the
/// result then holds the assembled tree and the geometry the renderer
/// computed for it. On failure the structured diagnostic of the
/// grammar stage comes back unchanged: where matching stopped and
/// what was acceptable there. The style text is taken verbatim; it is
/// never validated or escaped.
pub fn compile(src: &str, css: &str) -> (r: Result<Diagram, ParseError>)
    ensures
        r is Ok <==> sp_input(src@) is Some,
        r matches Ok(d) ==> compiled_to(src@, css@, d),
        r matches Err(e) ==> err_located(e, src@),
{
    let chars = chars_of(src);
    let trees = match parse(&chars) {
        Ok(ts) => ts,
        Err(e) => {
            return Err(e);
        },
    };
    let ghost tree_seq = tree_views(trees@);
    let mut exprs: Vec<Node> = Vec::new();
    let mut i: usize = 0;
    while i < trees.len()
        invariant
            0 <= i <= trees@.len(),
            tree_seq == tree_views(trees@),
            forall|k: int| 0 <= k < trees@.len() ==> tree_wf(#[trigger] trees@[k]@),
            exprs@.len() == i,
            forall|k: int| 0 <= k < i ==> build_spec(tree_seq[k]) == Ok::<_, BuildError>(
                #[trigger] exprs@[k]@,
            ),
        decreases trees@.len() - i,
    {
        match make_node(&trees[i]) {
            Ok(n) => {
                exprs.push(n);
            },
            Err(_) => {
                proof {
                    assert(tree_wf(trees@[i as int]@));
                    assert(false);
                }
                unreached()
            },
        }
        i = i + 1;
    }
    proof {
        assert forall|k: int| 0 <= k < tree_seq.len() implies views_of(exprs@)[k] == built_views(
            tree_seq,
        )[k] by {
            assert(build_spec(tree_seq[k]) == Ok::<_, BuildError>(exprs@[k]@));
        }
        assert(views_of(exprs@) =~= built_views(tree_seq));
    }
    let root = assemble(exprs);
    let rr = to_rr(&root);
    let mut diagram = rr_diagram_new(rr);
    rr_diagram_add_css(&mut diagram, css);
    proof {
        assert(rr_diagram_styles(diagram) =~= seq![css@]);
    }
    let width = rr_diagram_width(&diagram);
    let height = rr_diagram_height(&diagram);
    Ok(Diagram { width, height, root, diagram })
}

/// For any well-formed source with exactly one top-level expression,
/// the compiled root is a sequence of exactly three elements: the
/// start sentinel, the expression's lowered tree, the end sentinel.
pub proof fn lemma_single_root(s: Seq<char>)
    requires
        sp_input(s) matches Some(ts) && ts.len() == 1,
    ensures
        compiled_root(s) == NodeView::Sequence(
            seq![
                NodeView::SimpleStart,
                built_views(sp_input(s).unwrap())[0],
                NodeView::SimpleEnd,
            ],
        ),
{
    assert(built_views(sp_input(s).unwrap()).len() == 1);
}

/// For source text with two or more top-level expressions, the
/// compiled root is a vertical grid with exactly one row per
/// expression, each row a three-element sequence wrapping the lowered
/// expression between the rail sentinels, in source order.
pub proof fn lemma_multi_root(s: Seq<char>)
    requires
        sp_input(s) matches Some(ts) && ts.len() >= 2,
    ensures
        ({
            let ns = built_views(sp_input(s).unwrap());
            &&& compiled_root(s) == NodeView::VerticalGrid(wrap_all(ns))
            &&& wrap_all(ns).len() == sp_input(s).unwrap().len()
            &&& forall|i: int|
                0 <= i < ns.len() ==> wrap_all(ns)[i] == NodeView::Sequence(
                    seq![NodeView::SimpleStart, ns[i], NodeView::SimpleEnd],
                )
        }),
{
    let ns = built_views(sp_input(s).unwrap());
    assert(ns.len() >= 2);
    assert forall|i: int| 0 <= i < ns.len() implies wrap_all(ns)[i] == NodeView::Sequence(
        seq![NodeView::SimpleStart, ns[i], NodeView::SimpleEnd],
    ) by {
        assert(wrap_all(ns)[i] == wrap_spec(ns[i]));
    }
}

/// Compiling the same source and style text twice yields the same
/// tree, the same width and the same height: a compiled result is a
/// function of the two inputs alone, with no hidden state.
pub proof fn lemma_geometry_idempotent(src: Seq<char>, css: Seq<char>, d1: Diagram, d2: Diagram)
    requires
        compiled_to(src, css, d1),
        compiled_to(src, css, d2),
    ensures
        d1.width == d2.width,
        d1.height == d2.height,
        d1.root@ == d2.root@,
{
}

} // verus!
