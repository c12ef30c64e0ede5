//! The grammar stage: concrete trees for each construct, and the
//! structured diagnostics for rejected text.

use railroad_dsl::parse::{parse, Expected};
use railroad_dsl::tree::{RuleKind, Tree};

fn chars(s: &str) -> Vec<char> {
    s.chars().collect()
}

fn parse_str(s: &str) -> Result<Vec<Tree>, railroad_dsl::parse::ParseError> {
    parse(&chars(s))
}

#[test]
fn parses_single_terminal() {
    let trees = parse_str("'a'").unwrap();
    assert_eq!(trees.len(), 1);
    assert_eq!(trees[0].kind, RuleKind::Term);
    assert_eq!(trees[0].text, chars("'a'"));
    assert!(trees[0].children.is_empty());
}

#[test]
fn parses_juxtaposition_as_sequence() {
    let trees = parse_str("'a' \"b\" `c`").unwrap();
    assert_eq!(trees.len(), 1);
    let seq = &trees[0];
    assert_eq!(seq.kind, RuleKind::Sequence);
    assert_eq!(seq.children.len(), 3);
    assert_eq!(seq.children[0].kind, RuleKind::Term);
    assert_eq!(seq.children[1].kind, RuleKind::NonTerm);
    assert_eq!(seq.children[2].kind, RuleKind::Comment);
}

#[test]
fn parses_empty_marker() {
    let trees = parse_str("_").unwrap();
    assert_eq!(trees[0].kind, RuleKind::Empty);
}

#[test]
fn parses_stack_with_commas() {
    let trees = parse_str("{ 'a', 'b' }").unwrap();
    let stack = &trees[0];
    assert_eq!(stack.kind, RuleKind::Stack);
    assert_eq!(stack.children.len(), 2);
}

#[test]
fn parses_choice_with_bars() {
    let trees = parse_str("('a' | 'b' | 'c')").unwrap();
    let choice = &trees[0];
    assert_eq!(choice.kind, RuleKind::Choice);
    assert_eq!(choice.children.len(), 3);
}

#[test]
fn single_group_is_transparent() {
    let trees = parse_str("('a')").unwrap();
    assert_eq!(trees[0].kind, RuleKind::Term);
}

#[test]
fn operator_without_operand_gets_empty_second_child() {
    let trees = parse_str("'a' *").unwrap();
    let rpt = &trees[0];
    assert_eq!(rpt.kind, RuleKind::RptExpr);
    assert_eq!(rpt.children.len(), 2);
    assert_eq!(rpt.children[0].kind, RuleKind::Term);
    assert_eq!(rpt.children[1].kind, RuleKind::Empty);
}

#[test]
fn operator_with_operand_keeps_it() {
    let trees = parse_str("'a' ? 'b'").unwrap();
    let opt = &trees[0];
    assert_eq!(opt.kind, RuleKind::OptExpr);
    assert_eq!(opt.children.len(), 2);
    assert_eq!(opt.children[1].kind, RuleKind::Term);
    assert_eq!(opt.children[1].text, chars("'b'"));

    let trees = parse_str("'a' @ `lbl`").unwrap();
    let lbox = &trees[0];
    assert_eq!(lbox.kind, RuleKind::LboxExpr);
    assert_eq!(lbox.children[1].kind, RuleKind::Comment);
}

#[test]
fn parses_two_top_level_expressions() {
    let trees = parse_str("'a' ; 'b' 'c'").unwrap();
    assert_eq!(trees.len(), 2);
    assert_eq!(trees[0].kind, RuleKind::Term);
    assert_eq!(trees[1].kind, RuleKind::Sequence);
}

#[test]
fn rejects_empty_source() {
    let e = parse_str("").unwrap_err();
    assert!(!e.expected.is_empty());
    assert_eq!(e.pos, 0);
    assert_eq!(e.line, 0);
    assert_eq!(e.col, 0);
}

#[test]
fn rejects_unterminated_literal() {
    let e = parse_str("'abc").unwrap_err();
    assert!(!e.expected.is_empty());
    assert!(e.expected.contains(&Expected::LiteralClose));
}

#[test]
fn rejects_trailing_text() {
    let e = parse_str("'a' )").unwrap_err();
    assert!(!e.expected.is_empty());
    assert_eq!(e.pos, 4);
}

#[test]
fn rejects_unclosed_stack() {
    let e = parse_str("{ 'a', 'b'").unwrap_err();
    assert!(e.expected.contains(&Expected::StackClose));
}

#[test]
fn rejects_unclosed_group() {
    let e = parse_str("('a' | 'b'").unwrap_err();
    assert!(e.expected.contains(&Expected::GroupClose));
}

#[test]
fn empty_source_offers_the_primary_alternatives() {
    let e = parse_str("").unwrap_err();
    assert!(e.expected.contains(&Expected::Term));
    assert!(e.expected.contains(&Expected::NonTerm));
    assert!(e.expected.contains(&Expected::Comment));
    assert!(e.expected.contains(&Expected::EmptyMark));
    assert!(e.expected.contains(&Expected::GroupOpen));
    assert!(e.expected.contains(&Expected::StackOpen));
}

#[test]
fn diagnostic_reports_line_and_column() {
    // The failure sits on the second line (index 1), third column
    // (index 2).
    let e = parse_str("'a'\n  )").unwrap_err();
    assert_eq!(e.line, 1);
    assert_eq!(e.col, 2);
}

#[test]
fn whitespace_around_everything_is_ignored() {
    let trees = parse_str("  \t\r\n 'a'  \n").unwrap();
    assert_eq!(trees.len(), 1);
    assert_eq!(trees[0].kind, RuleKind::Term);
}
