//! The grammar stage: a recursive-descent parser for the diagram
//! language, turning source text into concrete parse trees.
//!
//! The grammar, in matching order:
//!
//! ```text
//! input   = sp exprs(';') sp end-of-input
//! exprs(sep) = expr { sp sep sp expr }
//! expr    = item { sp item }                  two or more: a sequence
//! item    = primary [ sp oper [ sp primary ] ]
//! oper    = '?' | '*' | '@'                   optional / repeat / label
//! primary = term | nonterm | comment | '_' | group | stack
//! term    = '\'' lit '\''      nonterm = '"' lit '"'     comment = '`' lit '`'
//! lit     = { '\\' any | any-but-delimiter }
//! group   = '(' sp exprs('|') sp ')'          two or more: a choice
//! stack   = '{' sp exprs(',') sp '}'
//! sp      = { ' ' | '\t' | '\n' | '\r' }
//! ```
//!
//! An operator with no second operand gets the empty leaf as its second
//! child, so operator nodes always carry exactly two children.

use vstd::prelude::*;

use crate::decode::unescape_spec;
use crate::tree::{branch_view, leaf_view, lit_wf, tree_views, tree_wf, RuleKind, Tree, TreeView};

verus! {

/// The tokens the parser was ready to accept at the point of failure.
#[derive(Clone, Copy, PartialEq, Eq, Structural, Debug)]
pub enum Expected {
    /// A single-quoted terminal literal.
    Term,
    /// A double-quoted non-terminal literal.
    NonTerm,
    /// A backquoted comment literal.
    Comment,
    /// The empty marker `_`.
    EmptyMark,
    /// An opening parenthesis.
    GroupOpen,
    /// An opening brace.
    StackOpen,
    /// The closing delimiter of an unterminated literal.
    LiteralClose,
    /// A closing parenthesis.
    GroupClose,
    /// A closing brace.
    StackClose,
    /// The `;` between top-level expressions.
    ExpressionSep,
    /// The end of the source text.
    EndOfInput,
}

/// A structured diagnostic for source text the grammar rejects: where
/// matching stopped and what could have stood there.
#[derive(Debug, PartialEq, Eq)]
pub struct ParseError {
    /// Character offset of the failure, counted from the start.
    pub pos: usize,
    /// Zero-based line index of the failure.
    pub line: usize,
    /// Zero-based column of the failure, in characters from the last
    /// line break.
    pub col: usize,
    /// The non-empty set of alternatives that were acceptable there.
    pub expected: Vec<Expected>,
}

/// Inter-token whitespace.
pub open spec fn is_sp(c: char) -> bool {
    c == ' ' || c == '\t' || c == '\n' || c == '\r'
}

/// A postfix operator character.
pub open spec fn is_oper(c: char) -> bool {
    c == '?' || c == '*' || c == '@'
}

/// The rule an operator character selects.
pub open spec fn oper_kind(c: char) -> RuleKind {
    if c == '?' {
        RuleKind::OptExpr
    } else if c == '*' {
        RuleKind::RptExpr
    } else {
        RuleKind::LboxExpr
    }
}

/// The rule a literal delimiter selects.
pub open spec fn lit_kind(c: char) -> RuleKind {
    if c == '\'' {
        RuleKind::Term
    } else if c == '"' {
        RuleKind::NonTerm
    } else {
        RuleKind::Comment
    }
}

/// Whether a primary can begin at `pos`.
pub open spec fn starts_primary(s: Seq<char>, pos: int) -> bool {
    pos < s.len() && (s[pos] == '\'' || s[pos] == '"' || s[pos] == '`' || s[pos] == '_' || s[pos]
        == '(' || s[pos] == '{')
}

/// The first position at or after `pos` that does not hold whitespace.
pub open spec fn sp_skip(s: Seq<char>, pos: int) -> int
    decreases s.len() - pos,
{
    if pos < s.len() && is_sp(s[pos]) {
        sp_skip(s, pos + 1)
    } else {
        pos
    }
}

/// Scan a literal's interior from `pos` for the closing delimiter; a
/// backslash consumes the following character, whatever it is. Returns
/// the position one past the closing delimiter, or nothing when the
/// literal is unterminated.
pub open spec fn sp_lit_end(s: Seq<char>, pos: int, delim: char) -> Option<int>
    decreases s.len() - pos,
{
    if pos >= s.len() {
        None
    } else if s[pos] == delim {
        Some(pos + 1)
    } else if s[pos] == '\\' {
        if pos + 1 < s.len() {
            sp_lit_end(s, pos + 2, delim)
        } else {
            None
        }
    } else {
        sp_lit_end(s, pos + 1, delim)
    }
}

/// The empty leaf the grammar supplies for an absent operand.
pub open spec fn empty_leaf() -> TreeView {
    leaf_view(RuleKind::Empty, Seq::empty())
}

/// Match one primary at `pos`: a literal, the empty marker, a
/// parenthesised group (one alternative passes through unchanged, two
/// or more become a choice), or a braced stack.
pub open spec fn sp_primary(s: Seq<char>, pos: int) -> Option<(TreeView, int)>
    decreases s.len() - pos, 1int,
{
    if pos >= s.len() {
        None
    } else if s[pos] == '\'' || s[pos] == '"' || s[pos] == '`' {
        match sp_lit_end(s, pos + 1, s[pos]) {
            Some(end) => Some((leaf_view(lit_kind(s[pos]), s.subrange(pos, end)), end)),
            None => None,
        }
    } else if s[pos] == '_' {
        Some((empty_leaf(), pos + 1))
    } else if s[pos] == '(' {
        let q = sp_skip(s, pos + 1);
        if pos < q <= s.len() {
            match sp_exprs(s, q, '|') {
                Some((ts, p1)) => {
                    let r = sp_skip(s, p1);
                    if r < s.len() && s[r] == ')' {
                        if ts.len() == 1 {
                            Some((ts[0], r + 1))
                        } else {
                            Some((branch_view(RuleKind::Choice, ts), r + 1))
                        }
                    } else {
                        None
                    }
                },
                None => None,
            }
        } else {
            None
        }
    } else if s[pos] == '{' {
        let q = sp_skip(s, pos + 1);
        if pos < q <= s.len() {
            match sp_exprs(s, q, ',') {
                Some((ts, p1)) => {
                    let r = sp_skip(s, p1);
                    if r < s.len() && s[r] == '}' {
                        Some((branch_view(RuleKind::Stack, ts), r + 1))
                    } else {
                        None
                    }
                },
                None => None,
            }
        } else {
            None
        }
    } else {
        None
    }
}

/// Match one item: a primary, optionally followed by one postfix
/// operator and its optional second operand. A missing second operand
/// is filled with the empty leaf, so an operator node always has two
/// children.
pub open spec fn sp_item(s: Seq<char>, pos: int) -> Option<(TreeView, int)>
    decreases s.len() - pos, 2int,
{
    match sp_primary(s, pos) {
        Some((t, p1)) => {
            let q = sp_skip(s, p1);
            if q < s.len() && is_oper(s[q]) {
                let r = sp_skip(s, q + 1);
                if starts_primary(s, r) {
                    if pos < r <= s.len() {
                        match sp_primary(s, r) {
                            Some((u, p2)) => Some(
                                (branch_view(oper_kind(s[q]), seq![t, u]), p2),
                            ),
                            None => None,
                        }
                    } else {
                        None
                    }
                } else {
                    Some((branch_view(oper_kind(s[q]), seq![t, empty_leaf()]), q + 1))
                }
            } else {
                Some((t, p1))
            }
        },
        None => None,
    }
}

/// Match one or more juxtaposed items.
pub open spec fn sp_items(s: Seq<char>, pos: int) -> Option<(Seq<TreeView>, int)>
    decreases s.len() - pos, 3int,
{
    match sp_item(s, pos) {
        Some((t, p1)) => {
            let q = sp_skip(s, p1);
            if starts_primary(s, q) && pos < q <= s.len() {
                match sp_items(s, q) {
                    Some((ts, p2)) => Some((seq![t] + ts, p2)),
                    None => None,
                }
            } else {
                Some((seq![t], p1))
            }
        },
        None => None,
    }
}

/// Match one expression: a single item passes through unchanged, two
/// or more juxtaposed items become a sequence.
pub open spec fn sp_expr(s: Seq<char>, pos: int) -> Option<(TreeView, int)>
    decreases s.len() - pos, 4int,
{
    match sp_items(s, pos) {
        Some((ts, p)) => if ts.len() == 1 {
            Some((ts[0], p))
        } else {
            Some((branch_view(RuleKind::Sequence, ts), p))
        },
        None => None,
    }
}

/// Match one or more expressions separated by `sep`.
pub open spec fn sp_exprs(s: Seq<char>, pos: int, sep: char) -> Option<(Seq<TreeView>, int)>
    decreases s.len() - pos, 5int,
{
    match sp_expr(s, pos) {
        Some((t, p1)) => {
            let q = sp_skip(s, p1);
            if q < s.len() && s[q] == sep {
                let r = sp_skip(s, q + 1);
                if pos < r <= s.len() {
                    match sp_exprs(s, r, sep) {
                        Some((ts, p2)) => Some((seq![t] + ts, p2)),
                        None => None,
                    }
                } else {
                    None
                }
            } else {
                Some((seq![t], p1))
            }
        },
        None => None,
    }
}

/// What the whole grammar accepts: surrounding whitespace, one or more
/// top-level expressions separated by `;`, and nothing after them. The
/// result is the concrete tree of each top-level expression, in source
/// order.
pub open spec fn sp_input(s: Seq<char>) -> Option<Seq<TreeView>> {
    let p = sp_skip(s, 0);
    match sp_exprs(s, p, ';') {
        Some((ts, p1)) => {
            let q = sp_skip(s, p1);
            if q == s.len() {
                Some(ts)
            } else {
                None
            }
        },
        None => None,
    }
}

/// The zero-based line index of the character offset `pos`: how many
/// line breaks stand before it.
pub open spec fn line_of(s: Seq<char>, pos: int) -> int
    decreases pos,
{
    if pos <= 0 {
        0
    } else {
        line_of(s, pos - 1) + if s[pos - 1] == '\n' {
            1int
        } else {
            0int
        }
    }
}

/// The zero-based column of the character offset `pos`: how many
/// characters stand between the last line break and it.
pub open spec fn col_of(s: Seq<char>, pos: int) -> int
    decreases pos,
{
    if pos <= 0 {
        0
    } else if s[pos - 1] == '\n' {
        0
    } else {
        col_of(s, pos - 1) + 1
    }
}

/// A diagnostic that points into the source and offers alternatives.
pub open spec fn err_wf(e: ParseError, s: Seq<char>) -> bool {
    &&& e.pos <= s.len()
    &&& e.expected@.len() > 0
}

/// A diagnostic whose line and column agree with its offset.
pub open spec fn err_located(e: ParseError, s: Seq<char>) -> bool {
    &&& err_wf(e, s)
    &&& e.line == line_of(s, e.pos as int)
    &&& e.col == col_of(s, e.pos as int)
}

/// A successfully scanned literal decodes: the scan pairs every
/// backslash with a following character.
proof fn lemma_lit_decodes(s: Seq<char>, pos: int, delim: char, end: int)
    requires
        0 <= pos <= s.len(),
        sp_lit_end(s, pos, delim) == Some(end),
    ensures
        pos < end <= s.len(),
        unescape_spec(s.subrange(pos, end - 1)) is Some,
    decreases s.len() - pos,
{
    if s[pos] == delim {
        assert(s.subrange(pos, end - 1).len() == 0);
    } else if s[pos] == '\\' {
        lemma_lit_decodes(s, pos + 2, delim, end);
        assert(s.subrange(pos, end - 1).skip(2) =~= s.subrange(pos + 2, end - 1));
        assert(s.subrange(pos, end - 1)[0] == '\\');
    } else {
        lemma_lit_decodes(s, pos + 1, delim, end);
        assert(s.subrange(pos, end - 1).skip(1) =~= s.subrange(pos + 1, end - 1));
        assert(s.subrange(pos, end - 1)[0] == s[pos]);
    }
}

/// Skip inter-token whitespace.
fn p_skip(s: &Vec<char>, pos: usize) -> (r: usize)
    requires
        pos <= s@.len(),
    ensures
        r as int == sp_skip(s@, pos as int),
        pos <= r <= s@.len(),
    decreases s@.len() - pos,
{
    let mut i = pos;
    while i < s.len() && (s[i] == ' ' || s[i] == '\t' || s[i] == '\n' || s[i] == '\r')
        invariant
            pos <= i <= s@.len(),
            sp_skip(s@, pos as int) == sp_skip(s@, i as int),
        decreases s@.len() - i,
    {
        i = i + 1;
    }
    i
}

/// Scan a literal's interior for its closing delimiter.
fn p_lit_end(s: &Vec<char>, pos: usize, delim: char) -> (r: Result<usize, ParseError>)
    requires
        pos <= s@.len(),
    ensures
        match r {
            Ok(end) => {
                &&& sp_lit_end(s@, pos as int, delim) == Some(end as int)
                &&& pos < end <= s@.len()
            },
            Err(e) => {
                &&& sp_lit_end(s@, pos as int, delim) is None
                &&& err_wf(e, s@)
            },
        },
{
    let mut i = pos;
    loop
        invariant
            pos <= i <= s@.len(),
            sp_lit_end(s@, pos as int, delim) == sp_lit_end(s@, i as int, delim),
        decreases s@.len() - i,
    {
        if i >= s.len() {
            return Err(ParseError { pos: i, line: 0, col: 0, expected: vec![Expected::LiteralClose] });
        }
        let c = s[i];
        if c == delim {
            return Ok(i + 1);
        } else if c == '\\' {
            if i + 1 >= s.len() {
                return Err(
                    ParseError { pos: i, line: 0, col: 0, expected: vec![Expected::LiteralClose] },
                );
            }
            i = i + 2;
        } else {
            i = i + 1;
        }
    }
}

/// Copy the characters of `[from, to)` out of the source.
fn copy_range(s: &Vec<char>, from: usize, to: usize) -> (r: Vec<char>)
    requires
        from <= to <= s@.len(),
    ensures
        r@ == s@.subrange(from as int, to as int),
{
    let mut out: Vec<char> = Vec::new();
    let mut i = from;
    while i < to
        invariant
            from <= i <= to <= s@.len(),
            out@ =~= s@.subrange(from as int, i as int),
        decreases to - i,
    {
        out.push(s[i]);
        proof {
            assert(out@ =~= s@.subrange(from as int, i + 1 as int));
        }
        i = i + 1;
    }
    proof {
        assert(out@ =~= s@.subrange(from as int, to as int));
    }
    out
}

/// A leaf of the concrete tree.
fn leaf(kind: RuleKind, text: Vec<char>) -> (r: Tree)
    ensures
        r@ == leaf_view(kind, text@),
{
    let t = Tree { kind, text, children: Vec::new() };
    proof {
        assert(tree_views(Seq::<Tree>::empty()) =~= Seq::<TreeView>::empty());
    }
    t
}

/// The set of tokens that can begin a primary.
fn expected_primary(pos: usize) -> (e: ParseError)
    ensures
        e.expected@.len() > 0,
        e.pos == pos,
{
    ParseError {
        pos,
        line: 0,
        col: 0,
        expected: vec![
            Expected::Term,
            Expected::NonTerm,
            Expected::Comment,
            Expected::EmptyMark,
            Expected::GroupOpen,
            Expected::StackOpen,
        ],
    }
}

/// Match one primary at `pos`.
fn p_primary(s: &Vec<char>, pos: usize) -> (r: Result<(Tree, usize), ParseError>)
    requires
        pos <= s@.len(),
    ensures
        match r {
            Ok((t, p)) => {
                &&& sp_primary(s@, pos as int) == Some((t@, p as int))
                &&& pos < p <= s@.len()
                &&& tree_wf(t@)
            },
            Err(e) => {
                &&& sp_primary(s@, pos as int) is None
                &&& err_wf(e, s@)
            },
        },
    decreases s@.len() - pos, 1int,
{
    if pos >= s.len() {
        return Err(expected_primary(pos));
    }
    let c = s[pos];
    if c == '\'' || c == '"' || c == '`' {
        match p_lit_end(s, pos + 1, c) {
            Ok(end) => {
                let text = copy_range(s, pos, end);
                let kind = if c == '\'' {
                    RuleKind::Term
                } else if c == '"' {
                    RuleKind::NonTerm
                } else {
                    RuleKind::Comment
                };
                let t = leaf(kind, text);
                proof {
                    lemma_lit_decodes(s@, pos + 1, c, end as int);
                    assert(s@.subrange(pos + 1, end - 1) =~= s@.subrange(pos as int, end as int)
                        .subrange(1, end - pos - 1));
                    assert(lit_wf(t@.text));
                }
                Ok((t, end))
            },
            Err(e) => Err(e),
        }
    } else if c == '_' {
        let t = leaf(RuleKind::Empty, Vec::new());
        Ok((t, pos + 1))
    } else if c == '(' {
        let q = p_skip(s, pos + 1);
        match p_exprs(s, q, '|') {
            Ok((ts, p1)) => {
                let r = p_skip(s, p1);
                if r < s.len() && s[r] == ')' {
                    let ghost tsv = ts@;
                    let mut ts = ts;
                    if ts.len() == 1 {
                        let t = ts.remove(0);
                        proof {
                            assert(tree_views(tsv)[0] == tsv[0]@);
                        }
                        Ok((t, r + 1))
                    } else {
                        let t = Tree { kind: RuleKind::Choice, text: Vec::new(), children: ts };
                        proof {
                            assert forall|i: int| 0 <= i < t@.children.len() implies tree_wf(
                                #[trigger] t@.children[i],
                            ) by {
                                assert(t@.children[i] == tsv[i]@);
                            }
                        }
                        Ok((t, r + 1))
                    }
                } else {
                    Err(ParseError { pos: r, line: 0, col: 0, expected: vec![Expected::GroupClose] })
                }
            },
            Err(e) => Err(e),
        }
    } else if c == '{' {
        let q = p_skip(s, pos + 1);
        match p_exprs(s, q, ',') {
            Ok((ts, p1)) => {
                let r = p_skip(s, p1);
                if r < s.len() && s[r] == '}' {
                    let ghost tsv = ts@;
                    let t = Tree { kind: RuleKind::Stack, text: Vec::new(), children: ts };
                    proof {
                        assert forall|i: int| 0 <= i < t@.children.len() implies tree_wf(
                            #[trigger] t@.children[i],
                        ) by {
                            assert(t@.children[i] == tsv[i]@);
                        }
                    }
                    Ok((t, r + 1))
                } else {
                    Err(ParseError { pos: r, line: 0, col: 0, expected: vec![Expected::StackClose] })
                }
            },
            Err(e) => Err(e),
        }
    } else {
        Err(expected_primary(pos))
    }
}

/// Match one item: a primary with at most one postfix operator.
fn p_item(s: &Vec<char>, pos: usize) -> (r: Result<(Tree, usize), ParseError>)
    requires
        pos <= s@.len(),
    ensures
        match r {
            Ok((t, p)) => {
                &&& sp_item(s@, pos as int) == Some((t@, p as int))
                &&& pos < p <= s@.len()
                &&& tree_wf(t@)
            },
            Err(e) => {
                &&& sp_item(s@, pos as int) is None
                &&& err_wf(e, s@)
            },
        },
    decreases s@.len() - pos, 2int,
{
    let (t, p1) = match p_primary(s, pos) {
        Ok(v) => v,
        Err(e) => {
            return Err(e);
        },
    };
    let q = p_skip(s, p1);
    if q < s.len() && (s[q] == '?' || s[q] == '*' || s[q] == '@') {
        let kind = if s[q] == '?' {
            RuleKind::OptExpr
        } else if s[q] == '*' {
            RuleKind::RptExpr
        } else {
            RuleKind::LboxExpr
        };
        let r = p_skip(s, q + 1);
        let has_operand = r < s.len() && {
            let c = s[r];
            c == '\'' || c == '"' || c == '`' || c == '_' || c == '(' || c == '{'
        };
        if has_operand {
            match p_primary(s, r) {
                Ok((u, p2)) => {
                    let ghost tv = t@;
                    let ghost uv = u@;
                    let node = Tree { kind, text: Vec::new(), children: vec![t, u] };
                    proof {
                        assert(tree_views(node.children@) =~= seq![tv, uv]);
                        assert(node@.children[0] == tv);
                        assert(node@.children[1] == uv);
                    }
                    Ok((node, p2))
                },
                Err(e) => Err(e),
            }
        } else {
            let ghost tv = t@;
            let second = leaf(RuleKind::Empty, Vec::new());
            let node = Tree { kind, text: Vec::new(), children: vec![t, second] };
            proof {
                assert(tree_views(node.children@) =~= seq![tv, empty_leaf()]);
                assert(node@.children[0] == tv);
                assert(node@.children[1] == empty_leaf());
                assert(tree_wf(empty_leaf()));
            }
            Ok((node, q + 1))
        }
    } else {
        Ok((t, p1))
    }
}

/// Match one or more juxtaposed items.
fn p_items(s: &Vec<char>, pos: usize) -> (r: Result<(Vec<Tree>, usize), ParseError>)
    requires
        pos <= s@.len(),
    ensures
        match r {
            Ok((ts, p)) => {
                &&& sp_items(s@, pos as int) == Some((tree_views(ts@), p as int))
                &&& pos < p <= s@.len()
                &&& ts@.len() >= 1
                &&& forall|i: int| 0 <= i < ts@.len() ==> tree_wf(#[trigger] ts@[i]@)
            },
            Err(e) => {
                &&& sp_items(s@, pos as int) is None
                &&& err_wf(e, s@)
            },
        },
    decreases s@.len() - pos, 3int,
{
    let (t, p1) = match p_item(s, pos) {
        Ok(v) => v,
        Err(e) => {
            return Err(e);
        },
    };
    let q = p_skip(s, p1);
    let more = q < s.len() && {
        let c = s[q];
        c == '\'' || c == '"' || c == '`' || c == '_' || c == '(' || c == '{'
    };
    if more {
        match p_items(s, q) {
            Ok((rest, p2)) => {
                let ghost tv = t@;
                let ghost rest_views = tree_views(rest@);
                let mut out = rest;
                out.insert(0, t);
                proof {
                    assert(tree_views(out@) =~= seq![tv] + rest_views);
                }
                Ok((out, p2))
            },
            Err(e) => Err(e),
        }
    } else {
        let ghost tv = t@;
        let out = vec![t];
        proof {
            assert(tree_views(out@) =~= seq![tv]);
        }
        Ok((out, p1))
    }
}

/// Match one expression.
fn p_expr(s: &Vec<char>, pos: usize) -> (r: Result<(Tree, usize), ParseError>)
    requires
        pos <= s@.len(),
    ensures
        match r {
            Ok((t, p)) => {
                &&& sp_expr(s@, pos as int) == Some((t@, p as int))
                &&& pos < p <= s@.len()
                &&& tree_wf(t@)
            },
            Err(e) => {
                &&& sp_expr(s@, pos as int) is None
                &&& err_wf(e, s@)
            },
        },
    decreases s@.len() - pos, 4int,
{
    match p_items(s, pos) {
        Ok((ts, p)) => {
            let ghost tsv = ts@;
            let mut ts = ts;
            if ts.len() == 1 {
                let t = ts.remove(0);
                proof {
                    assert(tree_views(tsv)[0] == tsv[0]@);
                }
                Ok((t, p))
            } else {
                let t = Tree { kind: RuleKind::Sequence, text: Vec::new(), children: ts };
                proof {
                    assert forall|i: int| 0 <= i < t@.children.len() implies tree_wf(
                        #[trigger] t@.children[i],
                    ) by {
                        assert(t@.children[i] == tsv[i]@);
                    }
                }
                Ok((t, p))
            }
        },
        Err(e) => Err(e),
    }
}

/// Match one or more expressions separated by `sep`.
fn p_exprs(s: &Vec<char>, pos: usize, sep: char) -> (r: Result<(Vec<Tree>, usize), ParseError>)
    requires
        pos <= s@.len(),
    ensures
        match r {
            Ok((ts, p)) => {
                &&& sp_exprs(s@, pos as int, sep) == Some((tree_views(ts@), p as int))
                &&& pos < p <= s@.len()
                &&& ts@.len() >= 1
                &&& forall|i: int| 0 <= i < ts@.len() ==> tree_wf(#[trigger] ts@[i]@)
            },
            Err(e) => {
                &&& sp_exprs(s@, pos as int, sep) is None
                &&& err_wf(e, s@)
            },
        },
    decreases s@.len() - pos, 5int,
{
    let (t, p1) = match p_expr(s, pos) {
        Ok(v) => v,
        Err(e) => {
            return Err(e);
        },
    };
    let q = p_skip(s, p1);
    if q < s.len() && s[q] == sep {
        let r = p_skip(s, q + 1);
        match p_exprs(s, r, sep) {
            Ok((rest, p2)) => {
                let ghost tv = t@;
                let ghost rest_views = tree_views(rest@);
                let mut out = rest;
                out.insert(0, t);
                proof {
                    assert(tree_views(out@) =~= seq![tv] + rest_views);
                }
                Ok((out, p2))
            },
            Err(e) => Err(e),
        }
    } else {
        let ghost tv = t@;
        let out = vec![t];
        proof {
            assert(tree_views(out@) =~= seq![tv]);
        }
        Ok((out, p1))
    }
}

/// Zero-based line and column of the character offset `pos`.
fn line_col(s: &Vec<char>, pos: usize) -> (r: (usize, usize))
    requires
        pos <= s@.len(),
    ensures
        r.0 as int == line_of(s@, pos as int),
        r.1 as int == col_of(s@, pos as int),
{
    let mut line: usize = 0;
    let mut col: usize = 0;
    let mut i: usize = 0;
    while i < pos
        invariant
            0 <= i <= pos <= s@.len(),
            line as int == line_of(s@, i as int),
            col as int == col_of(s@, i as int),
            line <= i,
            col <= i,
        decreases pos - i,
    {
        if s[i] == '\n' {
            line = line + 1;
            col = 0;
        } else {
            col = col + 1;
        }
        i = i + 1;
    }
    (line, col)
}

/// Parse whole source text into the concrete trees of its top-level
/// expressions. Succeeds exactly when the grammar matches the whole
/// text; the trees come back in source order, at least one, each
/// satisfying the grammar's guarantees. On failure the diagnostic
/// points at the offending offset, with its line, its column and a
/// non-empty set of acceptable alternatives.
pub fn parse(s: &Vec<char>) -> (r: Result<Vec<Tree>, ParseError>)
    ensures
        match r {
            Ok(ts) => {
                &&& sp_input(s@) == Some(tree_views(ts@))
                &&& ts@.len() >= 1
                &&& forall|i: int| 0 <= i < ts@.len() ==> tree_wf(#[trigger] ts@[i]@)
            },
            Err(e) => {
                &&& sp_input(s@) is None
                &&& err_located(e, s@)
            },
        },
{
    let start = p_skip(s, 0);
    let inner = match p_exprs(s, start, ';') {
        Ok((ts, p1)) => {
            let q = p_skip(s, p1);
            if q == s.len() {
                return Ok(ts);
            }
            Err(
                ParseError {
                    pos: q,
                    line: 0,
                    col: 0,
                    expected: vec![Expected::ExpressionSep, Expected::EndOfInput],
                },
            )
        },
        Err(e) => Err(e),
    };
    match inner {
        Ok(v) => Ok(v),
        Err(e) => {
            let (line, col) = line_col(s, e.pos);
            Err(ParseError { pos: e.pos, line, col, expected: e.expected })
        },
    }
}

} // verus!
