//! The literal decoder: delimiters stripped, escapes resolved, a
//! dangling escape rejected.

use railroad_dsl::decode::unescape;

fn chars(s: &str) -> Vec<char> {
    s.chars().collect()
}

#[test]
fn decodes_escaped_delimiter() {
    // The span "a\"b" (with its delimiters): the backslash-escaped
    // delimiter becomes a literal quote.
    let span = chars("\"a\\\"b\"");
    assert_eq!(unescape(&span), Some(chars("a\"b")));
}

#[test]
fn decodes_plain_text() {
    let span = chars("\"plain\"");
    assert_eq!(unescape(&span), Some(chars("plain")));
}

#[test]
fn decodes_empty_interior() {
    let span = chars("''");
    assert_eq!(unescape(&span), Some(Vec::new()));
}

#[test]
fn decodes_escaped_backslash() {
    let span = chars("'a\\\\b'");
    assert_eq!(unescape(&span), Some(chars("a\\b")));
}

#[test]
fn escape_takes_next_character_verbatim() {
    // No semantic distinction between escaped characters.
    let span = chars("'\\x\\y'");
    assert_eq!(unescape(&span), Some(chars("xy")));
}

#[test]
fn rejects_trailing_escape() {
    // A backslash standing last before the closing delimiter.
    let span = chars("\"a\\\"");
    assert_eq!(unescape(&span), None);
}
