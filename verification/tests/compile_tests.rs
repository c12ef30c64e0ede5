//! The compile entry point end to end, with the real renderer linked.

use railroad_dsl::assemble::{assemble, start_to_end};
use railroad_dsl::compile;
use railroad_dsl::node::Node;

fn chars(s: &str) -> Vec<char> {
    s.chars().collect()
}

fn terminal(s: &str) -> Node {
    Node::Terminal(chars(s))
}

#[test]
fn two_sequential_terminals_end_to_end() {
    // Source `'A' 'B'`: two sequential terminals, wrapped between the
    // rail sentinels, with positive geometry.
    let d = compile("'A' 'B'", railroad::DEFAULT_CSS).unwrap();
    assert_eq!(
        d.root,
        Node::Sequence(vec![
            Node::SimpleStart,
            Node::Sequence(vec![terminal("A"), terminal("B")]),
            Node::SimpleEnd,
        ])
    );
    assert!(d.width > 0);
    assert!(d.height > 0);
}

#[test]
fn single_expression_root_is_three_element_sequence() {
    let d = compile("\"rule\"", "").unwrap();
    assert_eq!(
        d.root,
        Node::Sequence(vec![
            Node::SimpleStart,
            Node::NonTerminal(chars("rule")),
            Node::SimpleEnd,
        ])
    );
}

#[test]
fn multiple_expressions_stack_into_a_grid() {
    let d = compile("'a' ; 'b' ; 'c'", "").unwrap();
    assert_eq!(
        d.root,
        Node::VerticalGrid(vec![
            Node::Sequence(vec![Node::SimpleStart, terminal("a"), Node::SimpleEnd]),
            Node::Sequence(vec![Node::SimpleStart, terminal("b"), Node::SimpleEnd]),
            Node::Sequence(vec![Node::SimpleStart, terminal("c"), Node::SimpleEnd]),
        ])
    );
}

#[test]
fn repeat_node_always_has_a_separator() {
    // No separator in the source: the grammar supplies the empty leaf,
    // and the repeat node still carries both children.
    let d = compile("'a' *", "").unwrap();
    assert_eq!(
        d.root,
        Node::Sequence(vec![
            Node::SimpleStart,
            Node::Repeat(Box::new(terminal("a")), Box::new(Node::Empty)),
            Node::SimpleEnd,
        ])
    );
    let d = compile("'a' * ','", "").unwrap();
    assert_eq!(
        d.root,
        Node::Sequence(vec![
            Node::SimpleStart,
            Node::Repeat(Box::new(terminal("a")), Box::new(terminal(","))),
            Node::SimpleEnd,
        ])
    );
}

#[test]
fn optional_second_operand_leaves_no_trace() {
    let with_operand = compile("'a' ? 'b'", "").unwrap();
    let without_operand = compile("'a' ?", "").unwrap();
    let expected = Node::Sequence(vec![
        Node::SimpleStart,
        Node::Optional(Box::new(terminal("a"))),
        Node::SimpleEnd,
    ]);
    assert_eq!(with_operand.root, expected);
    assert_eq!(without_operand.root, expected);
}

#[test]
fn escape_decodes_before_node_construction() {
    let d = compile("\"a\\\"b\"", "").unwrap();
    assert_eq!(
        d.root,
        Node::Sequence(vec![
            Node::SimpleStart,
            Node::NonTerminal(chars("a\"b")),
            Node::SimpleEnd,
        ])
    );
}

#[test]
fn geometry_is_idempotent() {
    let src = "{'a' * ',', ('x' | 'y') ?} ; `note`";
    let d1 = compile(src, railroad::DEFAULT_CSS).unwrap();
    let d2 = compile(src, railroad::DEFAULT_CSS).unwrap();
    assert_eq!(d1.width, d2.width);
    assert_eq!(d1.height, d2.height);
    assert_eq!(d1.root, d2.root);
}

#[test]
fn failure_returns_a_located_diagnostic() {
    let e = match compile("", "") {
        Err(e) => e,
        Ok(_) => panic!("an empty source must be rejected"),
    };
    assert!(!e.expected.is_empty());
    assert_eq!((e.pos, e.line, e.col), (0, 0, 0));

    let e = match compile("'never closed", "") {
        Err(e) => e,
        Ok(_) => panic!("an unterminated literal must be rejected"),
    };
    assert!(!e.expected.is_empty());
    assert!(e.pos <= "'never closed".len());
}

#[test]
fn svg_serializes_the_diagram_with_the_style_text() {
    let css = "svg.railroad { background: silver; }";
    let d = compile("'token'", css).unwrap();
    let svg = d.svg();
    assert!(svg.starts_with("<svg"));
    assert!(svg.contains("token"));
    assert!(svg.contains(css));
}

#[test]
fn svg_holds_exactly_one_style_element() {
    let d = compile("'token'", "/* one */").unwrap();
    let svg = d.svg();
    assert_eq!(svg.matches("<style").count(), 1);
}

#[test]
fn assembler_wraps_and_stacks() {
    let wrapped = start_to_end(terminal("z"));
    assert_eq!(
        wrapped,
        Node::Sequence(vec![Node::SimpleStart, terminal("z"), Node::SimpleEnd])
    );
    let single = assemble(vec![terminal("z")]);
    assert_eq!(
        single,
        Node::Sequence(vec![Node::SimpleStart, terminal("z"), Node::SimpleEnd])
    );
    let multi = assemble(vec![terminal("p"), terminal("q")]);
    assert_eq!(
        multi,
        Node::VerticalGrid(vec![
            Node::Sequence(vec![Node::SimpleStart, terminal("p"), Node::SimpleEnd]),
            Node::Sequence(vec![Node::SimpleStart, terminal("q"), Node::SimpleEnd]),
        ])
    );
}

#[test]
fn nested_constructs_compile() {
    let d = compile("{ 'a' 'b' * ';', ('x' | _) } @ `boxed`", "").unwrap();
    match &d.root {
        Node::Sequence(outer) => {
            assert_eq!(outer.len(), 3);
            match &outer[1] {
                Node::LabeledBox(inner, label) => {
                    assert_eq!(**label, Node::Comment(chars("boxed")));
                    match &**inner {
                        Node::Stack(rows) => assert_eq!(rows.len(), 2),
                        other => panic!("expected a stack, got {other:?}"),
                    }
                },
                other => panic!("expected a labeled box, got {other:?}"),
            }
        },
        other => panic!("expected a sequence, got {other:?}"),
    }
}
