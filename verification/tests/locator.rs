//! The comment locator over hand-built token streams.

use nixdoc::comment::{retrieve_doc_comment, Tok, TokKind};

fn tok(kind: TokKind, text: &str) -> Tok {
    Tok { kind, text: String::from(text) }
}

#[test]
fn block_comment_attached_through_whitespace() {
    let toks = vec![
        tok(TokKind::Other, "x"),
        tok(TokKind::Whitespace, " "),
        tok(TokKind::Comment, "/* doc */"),
        tok(TokKind::Whitespace, "\n"),
    ];
    // Node starts right after the trailing whitespace.
    let r = retrieve_doc_comment(&toks, 4, false);
    assert_eq!(r, Some(String::from(" doc ")));
}

#[test]
fn no_comment_before_node() {
    let toks = vec![tok(TokKind::Other, "x"), tok(TokKind::Whitespace, " ")];
    assert_eq!(retrieve_doc_comment(&toks, 2, true), None);
    assert_eq!(retrieve_doc_comment(&toks, 0, true), None);
}

#[test]
fn code_between_comment_and_node_detaches_it() {
    let toks = vec![
        tok(TokKind::Comment, "/* d */"),
        tok(TokKind::Other, "x"),
        tok(TokKind::Whitespace, " "),
    ];
    assert_eq!(retrieve_doc_comment(&toks, 3, true), None);
    assert_eq!(retrieve_doc_comment(&toks, 3, false), None);
}

#[test]
fn line_comment_rejected_for_entry_docs() {
    // A line comment with a blank line before the binding, and no block
    // comment anywhere above: entry-doc lookup finds nothing.
    let toks = vec![
        tok(TokKind::Comment, "# note"),
        tok(TokKind::Whitespace, "\n\n"),
        tok(TokKind::Other, "id"),
    ];
    assert_eq!(retrieve_doc_comment(&toks, 2, false), None);
}

#[test]
fn line_comment_found_when_allowed() {
    let toks = vec![
        tok(TokKind::Comment, "# note"),
        tok(TokKind::Whitespace, "\n\n"),
        tok(TokKind::Other, "id"),
    ];
    assert_eq!(retrieve_doc_comment(&toks, 2, true), Some(String::from("note")));
}

#[test]
fn adjacent_line_comments_merge_space_joined() {
    let toks = vec![
        tok(TokKind::Comment, "# one"),
        tok(TokKind::Whitespace, "\n"),
        tok(TokKind::Comment, "# two"),
        tok(TokKind::Whitespace, "\n"),
        tok(TokKind::Other, "id"),
    ];
    assert_eq!(retrieve_doc_comment(&toks, 4, true), Some(String::from("one two")));
}

#[test]
fn blank_line_breaks_line_comment_chain() {
    let toks = vec![
        tok(TokKind::Comment, "# far"),
        tok(TokKind::Whitespace, "\n\n"),
        tok(TokKind::Comment, "# near"),
        tok(TokKind::Whitespace, "\n"),
        tok(TokKind::Other, "id"),
    ];
    assert_eq!(retrieve_doc_comment(&toks, 4, true), Some(String::from("near")));
}

#[test]
fn line_comments_backtrack_to_block_comment() {
    // Entry-doc lookup walks past deprecation-style line comments to the
    // block comment above them.
    let toks = vec![
        tok(TokKind::Comment, "/* real doc */"),
        tok(TokKind::Whitespace, "\n"),
        tok(TokKind::Comment, "# internal remark"),
        tok(TokKind::Whitespace, "\n"),
        tok(TokKind::Other, "id"),
    ];
    assert_eq!(retrieve_doc_comment(&toks, 4, false), Some(String::from(" real doc ")));
}
