//! Indentation normalization and doc-comment section parsing.

use nixdoc::indent::handle_indentation;
use nixdoc::parse::parse_doc_comment;

#[test]
fn normalize_dedents_block_after_first_line() {
    let raw = "foo is\n  the value:\n    10\n";
    let r = handle_indentation(raw);
    assert_eq!(r, Some(String::from("foo is\nthe value:\n  10")));
}

#[test]
fn normalize_single_line_trims() {
    assert_eq!(handle_indentation("  hello  "), Some(String::from("hello")));
}

#[test]
fn normalize_whitespace_only_is_none() {
    assert_eq!(handle_indentation("   \n  \t\n"), None);
    assert_eq!(handle_indentation(""), None);
}

#[test]
fn normalize_is_idempotent_on_normalized_text() {
    let inputs = [
        "foo is\n  the value:\n    10\n",
        "  one line  ",
        "a\n\nb\n  c",
        "x:\n    y\n    z",
    ];
    for raw in inputs {
        let once = handle_indentation(raw).unwrap();
        let twice = handle_indentation(&once).unwrap();
        assert_eq!(twice, once);
    }
}

#[test]
fn parse_blank_comment_keeps_empty_doc() {
    let r = parse_doc_comment("   \n \t ");
    assert_eq!(r.doc, String::new());
    assert_eq!(r.doc_type, None);
    assert_eq!(r.example, None);
}

#[test]
fn parse_type_line_then_blank_then_text() {
    let r = parse_doc_comment("Type: int -> int\n\nAdds one");
    assert_eq!(r.doc, String::new());
    assert_eq!(r.doc_type, Some(String::from("int -> int\n\nAdds one")));
    assert_eq!(r.example, None);
}

#[test]
fn parse_description_then_type_section() {
    let raw = " Concatenate strings.\n\n     Type: concat :: [string] -> string\n  ";
    let r = parse_doc_comment(raw);
    assert_eq!(r.doc, String::from("Concatenate strings."));
    assert_eq!(r.doc_type, Some(String::from("concat :: [string] -> string")));
    assert_eq!(r.example, None);
}

#[test]
fn parse_example_section() {
    let r = parse_doc_comment("Does things.\nExample:\n  f 1\n");
    assert_eq!(r.doc, String::from("Does things."));
    assert_eq!(r.doc_type, None);
    assert_eq!(r.example, Some(String::from("f 1")));
}

#[test]
fn parse_keeps_relative_indentation() {
    let raw = " Lines:\n   flush\n     indented\n";
    let r = parse_doc_comment(raw);
    assert_eq!(r.doc, String::from("Lines:\nflush\n  indented"));
}

#[test]
fn trim_removes_surrounding_whitespace_only() {
    assert_eq!(nixdoc::text::trim_str("  a b \t"), "a b");
    assert_eq!(nixdoc::text::trim_str("\n\n"), "");
    assert_eq!(nixdoc::text::trim_str("x"), "x");
}

#[test]
fn dedent_keeps_relative_indentation_and_empties_blank_lines() {
    assert_eq!(nixdoc::indent::dedent("  a\n \n    b"), String::from("a\n\n  b"));
    assert_eq!(nixdoc::indent::dedent("a\n"), String::from("a\n"));
    assert_eq!(nixdoc::indent::dedent(""), String::new());
}
