//! The node builder: leaf decoding, child collection, and the three
//! operator-folding policies.

use railroad_dsl::builder::{fold_optional, fold_repeat, make_node, BuildError};
use railroad_dsl::node::Node;
use railroad_dsl::tree::{RuleKind, Tree};

fn chars(s: &str) -> Vec<char> {
    s.chars().collect()
}

fn leaf(kind: RuleKind, text: &str) -> Tree {
    Tree { kind, text: chars(text), children: Vec::new() }
}

fn branch(kind: RuleKind, children: Vec<Tree>) -> Tree {
    Tree { kind, text: Vec::new(), children }
}

#[test]
fn lowers_terminal_leaf() {
    let t = leaf(RuleKind::Term, "'hi'");
    assert_eq!(make_node(&t), Ok(Node::Terminal(chars("hi"))));
}

#[test]
fn lowers_nonterminal_and_comment() {
    assert_eq!(
        make_node(&leaf(RuleKind::NonTerm, "\"rule\"")),
        Ok(Node::NonTerminal(chars("rule")))
    );
    assert_eq!(make_node(&leaf(RuleKind::Comment, "`note`")), Ok(Node::Comment(chars("note"))));
}

#[test]
fn lowers_empty_leaf() {
    let t = Tree { kind: RuleKind::Empty, text: Vec::new(), children: Vec::new() };
    assert_eq!(make_node(&t), Ok(Node::Empty));
}

#[test]
fn collects_sequence_children_in_order() {
    let t = branch(
        RuleKind::Sequence,
        vec![leaf(RuleKind::Term, "'a'"), leaf(RuleKind::Term, "'b'")],
    );
    assert_eq!(
        make_node(&t),
        Ok(Node::Sequence(vec![Node::Terminal(chars("a")), Node::Terminal(chars("b"))]))
    );
}

#[test]
fn optional_discards_second_operand() {
    // Two optional constructs sharing a primary but differing in the
    // second operand lower to the same node: no trace of the second.
    let with_b = branch(
        RuleKind::OptExpr,
        vec![leaf(RuleKind::Term, "'a'"), leaf(RuleKind::Term, "'b'")],
    );
    let with_c = branch(
        RuleKind::OptExpr,
        vec![leaf(RuleKind::Term, "'a'"), leaf(RuleKind::Comment, "`c`")],
    );
    let expected = Ok(Node::Optional(Box::new(Node::Terminal(chars("a")))));
    assert_eq!(make_node(&with_b), expected);
    assert_eq!(make_node(&with_c), expected);
    assert_eq!(fold_optional(&with_b), Ok(Node::Optional(Box::new(Node::Terminal(chars("a"))))));
}

#[test]
fn repeat_carries_separator() {
    let t = branch(
        RuleKind::RptExpr,
        vec![leaf(RuleKind::Term, "'a'"), leaf(RuleKind::Term, "','")],
    );
    assert_eq!(
        fold_repeat(&t),
        Ok(Node::Repeat(
            Box::new(Node::Terminal(chars("a"))),
            Box::new(Node::Terminal(chars(","))),
        ))
    );
}

#[test]
fn labeled_box_carries_label() {
    let t = branch(
        RuleKind::LboxExpr,
        vec![leaf(RuleKind::Term, "'a'"), leaf(RuleKind::Comment, "`why`")],
    );
    assert_eq!(
        make_node(&t),
        Ok(Node::LabeledBox(
            Box::new(Node::Terminal(chars("a"))),
            Box::new(Node::Comment(chars("why"))),
        ))
    );
}

#[test]
fn operator_without_children_is_a_defect() {
    let t = branch(RuleKind::RptExpr, Vec::new());
    assert_eq!(make_node(&t), Err(BuildError::MissingOperand));
}

#[test]
fn operator_with_single_child_degenerates_to_it() {
    let t = branch(RuleKind::OptExpr, vec![leaf(RuleKind::Term, "'a'")]);
    assert_eq!(make_node(&t), Ok(Node::Terminal(chars("a"))));
}

#[test]
fn bad_literal_is_a_defect() {
    // A span whose interior ends on a dangling escape.
    let t = leaf(RuleKind::Term, "'a\\'");
    assert_eq!(make_node(&t), Err(BuildError::BadLiteral));
    // A span too short to carry its delimiters.
    let t = leaf(RuleKind::Term, "'");
    assert_eq!(make_node(&t), Err(BuildError::BadLiteral));
}
