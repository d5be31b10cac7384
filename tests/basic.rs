use thrift_parser::basic::{Comment, Identifier, ListSeparator, Literal, Separator};
use thrift_parser::text::ErrorKind;

#[test]
fn test_literal() {
    let inputs = ["'ihciah'balabala", "'ihcia\"h'''''", "\"ihciah\"balabala", "\"ihcia'h\"''''"];
    let expected = ["ihciah", "ihcia\"h", "ihciah", "ihcia'h"];
    for (i, e) in inputs.iter().zip(expected.iter()) {
        assert_eq!(Literal::parse(i).unwrap().1, Literal::new(e));
    }
    assert!(Literal::parse("'ihcia\"aa").is_err());
}

#[test]
fn test_identifier() {
    assert_eq!(Identifier::parse("_ihc123iah,").unwrap().1, Identifier::new("_ihc123iah"));
    assert_eq!(Identifier::parse("ihc123iah,").unwrap().1, Identifier::new("ihc123iah"));
    for bad in ["_123", "_", "123"] {
        assert!(Identifier::parse(bad).is_err());
    }
}

#[test]
fn test_list_separator() {
    assert!(ListSeparator::parse(";").is_ok());
    assert!(ListSeparator::parse(",").is_ok());
    assert!(ListSeparator::parse("a").is_err());
}

#[test]
fn test_comment() {
    let inputs = [
        "//ihciah's #content",
        "//ihciah's #content balabala\nNextLine",
        "#ihciah's ///#content",
        "/*ihciah's con@#tent*///aaa",
    ];
    let expected = [
        "ihciah's #content",
        "ihciah's #content balabala",
        "ihciah's ///#content",
        "ihciah's con@#tent",
    ];
    for (i, e) in inputs.iter().zip(expected.iter()) {
        assert_eq!(Comment::parse(i).unwrap().1, Comment::new(e));
    }
}

#[test]
fn literal_keeps_the_rest() {
    let (rest, lit) = Literal::parse("'ab'cd").unwrap();
    assert_eq!(lit.as_str(), "ab");
    assert_eq!(rest, "cd");
}

#[test]
fn literal_unterminated_kind() {
    assert_eq!(Literal::parse("\"abc").unwrap_err().kind, ErrorKind::Unterminated);
    assert_eq!(Literal::parse("abc").unwrap_err().kind, ErrorKind::Tag);
    assert_eq!(Literal::parse("").unwrap_err().kind, ErrorKind::Tag);
}

#[test]
fn literal_empty_content() {
    let (rest, lit) = Literal::parse("''x").unwrap();
    assert_eq!(lit.as_str(), "");
    assert_eq!(rest, "x");
}

#[test]
fn identifier_with_dots_and_rest() {
    let (rest, id) = Identifier::parse("a.b_c9 tail").unwrap();
    assert_eq!(id.as_str(), "a.b_c9");
    assert_eq!(rest, " tail");
}

#[test]
fn comment_block_unterminated() {
    assert_eq!(Comment::parse("/* open").unwrap_err().kind, ErrorKind::Unterminated);
    assert!(Comment::parse("x").is_err());
}

#[test]
fn comment_block_is_not_greedy() {
    let (rest, c) = Comment::parse("/*a*/b*/").unwrap();
    assert_eq!(c.as_str(), "a");
    assert_eq!(rest, "b*/");
}

#[test]
fn separator_runs() {
    let (rest, _) = Separator::parse("  // c\n /* d */ # e\n\tx").unwrap();
    assert_eq!(rest, "x");
    assert!(Separator::parse("x").is_err());
    assert!(Separator::parse("").is_err());
}
