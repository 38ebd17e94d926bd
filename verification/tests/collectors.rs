//! Parameter, entry and root collection over hand-built tree models.

use nixdoc::collect::{collect_entries, collect_lambda_args, Argument, DocItem, ManualEntry};
use nixdoc::comment::{Tok, TokKind};
use nixdoc::parse::DocComment;
use nixdoc::tree::{LambdaParam, NixExpr, PatEntry, SetChild};

fn tok(kind: TokKind, text: &str) -> Tok {
    Tok { kind, text: String::from(text) }
}

fn ident_param(name: &str, start: usize) -> LambdaParam {
    LambdaParam::Ident { name: String::from(name), start }
}

fn leaf() -> NixExpr {
    NixExpr::Node { children: vec![] }
}

fn flat_name(a: &Argument) -> (&String, &Option<String>) {
    match a {
        Argument::Flat(s) => (&s.name, &s.doc),
        Argument::Pattern(_) => panic!("expected a flat argument"),
    }
}

#[test]
fn curried_function_yields_flat_args_in_order() {
    // f = a: b: a + b
    let toks: Vec<Tok> = vec![];
    let lambda = NixExpr::Lambda {
        param: ident_param("a", 0),
        body: Box::new(NixExpr::Lambda { param: ident_param("b", 0), body: Box::new(leaf()) }),
    };
    let args = collect_lambda_args(&toks, &lambda);
    assert_eq!(args.len(), 2);
    let (n0, d0) = flat_name(&args[0]);
    let (n1, d1) = flat_name(&args[1]);
    assert_eq!(n0, "a");
    assert_eq!(n1, "b");
    assert_eq!(*d0, None);
    assert_eq!(*d1, None);
}

#[test]
fn pattern_parameter_keeps_source_order() {
    // { x, y }: ...
    let toks: Vec<Tok> = vec![];
    let lambda = NixExpr::Lambda {
        param: LambdaParam::Pattern {
            entries: vec![
                PatEntry { name: String::from("x"), start: 0 },
                PatEntry { name: String::from("y"), start: 0 },
            ],
        },
        body: Box::new(leaf()),
    };
    let args = collect_lambda_args(&toks, &lambda);
    assert_eq!(args.len(), 1);
    match &args[0] {
        Argument::Pattern(entries) => {
            assert_eq!(entries.len(), 2);
            assert_eq!(entries[0].name, "x");
            assert_eq!(entries[1].name, "y");
        },
        Argument::Flat(_) => panic!("expected a pattern argument"),
    }
}

/// Token stream of `{ /* adds two numbers */ add = a: b: a + b; }`.
fn add_tokens() -> Vec<Tok> {
    vec![
        tok(TokKind::Other, "{"),                          // 0
        tok(TokKind::Whitespace, " "),                     // 1
        tok(TokKind::Comment, "/* adds two numbers */"),   // 2
        tok(TokKind::Whitespace, " "),                     // 3
        tok(TokKind::Other, "add"),                        // 4
        tok(TokKind::Whitespace, " "),                     // 5
        tok(TokKind::Other, "="),                          // 6
        tok(TokKind::Whitespace, " "),                     // 7
        tok(TokKind::Other, "a"),                          // 8
        tok(TokKind::Other, ":"),                          // 9
        tok(TokKind::Whitespace, " "),                     // 10
        tok(TokKind::Other, "b"),                          // 11
        tok(TokKind::Other, ":"),                          // 12
        tok(TokKind::Whitespace, " "),                     // 13
        tok(TokKind::Other, "a + b"),                      // 14
        tok(TokKind::Other, ";"),                          // 15
        tok(TokKind::Whitespace, " "),                     // 16
        tok(TokKind::Other, "}"),                          // 17
    ]
}

#[test]
fn documented_binding_becomes_one_entry() {
    let toks = add_tokens();
    let root = NixExpr::AttrSet {
        children: vec![SetChild::Binding {
            name: String::from("add"),
            start: 4,
            value: NixExpr::Lambda {
                param: ident_param("a", 8),
                body: Box::new(NixExpr::Lambda {
                    param: ident_param("b", 11),
                    body: Box::new(leaf()),
                }),
            },
        }],
    };
    let entries = collect_entries(&toks, &root, "math");
    assert_eq!(entries.len(), 1);
    let e = &entries[0];
    assert_eq!(e.name, "add");
    assert_eq!(e.category, "math");
    assert_eq!(e.description, vec![String::from("adds two numbers")]);
    assert_eq!(e.fn_type, None);
    assert_eq!(e.example, None);
    assert_eq!(e.args.len(), 2);
    assert_eq!(flat_name(&e.args[0]).0, "a");
    assert_eq!(flat_name(&e.args[1]).0, "b");
}

#[test]
fn undocumented_binding_is_skipped() {
    let toks: Vec<Tok> = vec![];
    let root = NixExpr::AttrSet {
        children: vec![SetChild::Binding {
            name: String::from("quiet"),
            start: 0,
            value: leaf(),
        }],
    };
    let entries = collect_entries(&toks, &root, "c");
    assert_eq!(entries.len(), 0);
}

/// Token stream of `let /* identity */ helper = x: x; in { inherit helper; }`.
fn let_tokens() -> Vec<Tok> {
    vec![
        tok(TokKind::Other, "let"),             // 0
        tok(TokKind::Whitespace, " "),          // 1
        tok(TokKind::Comment, "/* identity */"),// 2
        tok(TokKind::Whitespace, " "),          // 3
        tok(TokKind::Other, "helper"),          // 4
        tok(TokKind::Whitespace, " "),          // 5
        tok(TokKind::Other, "="),               // 6
        tok(TokKind::Whitespace, " "),          // 7
        tok(TokKind::Other, "x"),               // 8
        tok(TokKind::Other, ":"),               // 9
        tok(TokKind::Whitespace, " "),          // 10
        tok(TokKind::Other, "x"),               // 11
        tok(TokKind::Other, ";"),               // 12
        tok(TokKind::Whitespace, " "),          // 13
        tok(TokKind::Other, "in"),              // 14
        tok(TokKind::Whitespace, " "),          // 15
        tok(TokKind::Other, "{"),               // 16
        tok(TokKind::Whitespace, " "),          // 17
        tok(TokKind::Other, "inherit"),         // 18
        tok(TokKind::Whitespace, " "),          // 19
        tok(TokKind::Other, "helper"),          // 20
        tok(TokKind::Other, ";"),               // 21
        tok(TokKind::Whitespace, " "),          // 22
        tok(TokKind::Other, "}"),               // 23
    ]
}

fn let_root(has_from: bool) -> NixExpr {
    NixExpr::LetIn {
        children: vec![SetChild::Binding {
            name: String::from("helper"),
            start: 4,
            value: NixExpr::Lambda { param: ident_param("x", 8), body: Box::new(leaf()) },
        }],
        body: Box::new(NixExpr::AttrSet {
            children: vec![SetChild::Inherit {
                has_from,
                names: vec![String::from("helper")],
            }],
        }),
    }
}

#[test]
fn inherited_name_reuses_let_binding_entry() {
    let toks = let_tokens();
    let entries = collect_entries(&toks, &let_root(false), "let");
    assert_eq!(entries.len(), 1);
    let e = &entries[0];
    assert_eq!(e.name, "helper");
    assert_eq!(e.description, vec![String::from("identity")]);
    assert_eq!(e.args.len(), 1);
    assert_eq!(flat_name(&e.args[0]).0, "x");
}

#[test]
fn inherit_with_source_namespace_is_skipped() {
    let toks = let_tokens();
    let entries = collect_entries(&toks, &let_root(true), "let");
    assert_eq!(entries.len(), 0);
}

#[test]
fn inherited_name_missing_from_scope_is_skipped() {
    let toks = let_tokens();
    let root = NixExpr::LetIn {
        children: vec![],
        body: Box::new(NixExpr::AttrSet {
            children: vec![SetChild::Inherit {
                has_from: false,
                names: vec![String::from("helper")],
            }],
        }),
    };
    let entries = collect_entries(&toks, &root, "let");
    assert_eq!(entries.len(), 0);
}

#[test]
fn first_binding_set_wins_over_nested_ones() {
    let toks = add_tokens();
    let inner = NixExpr::AttrSet {
        children: vec![SetChild::Binding {
            name: String::from("add"),
            start: 4,
            value: leaf(),
        }],
    };
    // The file's root wraps the binding set in another node.
    let root = NixExpr::Node { children: vec![NixExpr::Node { children: vec![inner] }] };
    let entries = collect_entries(&toks, &root, "wrapped");
    assert_eq!(entries.len(), 1);
    assert_eq!(entries[0].name, "add");
}

#[test]
fn file_without_binding_set_yields_nothing() {
    let toks: Vec<Tok> = vec![];
    let root = NixExpr::Node { children: vec![leaf(), leaf()] };
    let entries = collect_entries(&toks, &root, "none");
    assert_eq!(entries.len(), 0);
}

#[test]
fn into_entry_splits_description_paragraphs() {
    let item = DocItem {
        name: String::from("thing"),
        comment: DocComment {
            doc: String::from("first paragraph\n\nsecond paragraph"),
            doc_type: Some(String::from("a -> b")),
            example: None,
        },
        args: vec![],
    };
    let entry: ManualEntry = item.into_entry("cat");
    assert_eq!(entry.category, "cat");
    assert_eq!(entry.name, "thing");
    assert_eq!(
        entry.description,
        vec![String::from("first paragraph"), String::from("second paragraph")]
    );
    assert_eq!(entry.fn_type, Some(String::from("a -> b")));
    assert_eq!(entry.example, None);
}

#[test]
fn later_let_binding_overrides_earlier_one_in_scope() {
    let toks = vec![
        tok(TokKind::Other, "let"),              // 0
        tok(TokKind::Whitespace, " "),           // 1
        tok(TokKind::Comment, "/* first */"),    // 2
        tok(TokKind::Whitespace, " "),           // 3
        tok(TokKind::Other, "dup"),              // 4
        tok(TokKind::Whitespace, " "),           // 5
        tok(TokKind::Other, "="),                // 6
        tok(TokKind::Whitespace, " "),           // 7
        tok(TokKind::Other, "1"),                // 8
        tok(TokKind::Other, ";"),                // 9
        tok(TokKind::Whitespace, "\n"),          // 10
        tok(TokKind::Comment, "/* second */"),   // 11
        tok(TokKind::Whitespace, " "),           // 12
        tok(TokKind::Other, "dup"),              // 13
        tok(TokKind::Whitespace, " "),           // 14
        tok(TokKind::Other, "="),                // 15
        tok(TokKind::Whitespace, " "),           // 16
        tok(TokKind::Other, "2"),                // 17
        tok(TokKind::Other, ";"),                // 18
        tok(TokKind::Whitespace, " "),           // 19
        tok(TokKind::Other, "in"),               // 20
        tok(TokKind::Whitespace, " "),           // 21
        tok(TokKind::Other, "{"),                // 22
        tok(TokKind::Whitespace, " "),           // 23
        tok(TokKind::Other, "inherit"),          // 24
        tok(TokKind::Whitespace, " "),           // 25
        tok(TokKind::Other, "dup"),              // 26
        tok(TokKind::Other, ";"),                // 27
        tok(TokKind::Whitespace, " "),           // 28
        tok(TokKind::Other, "}"),                // 29
    ];
    let root = NixExpr::LetIn {
        children: vec![
            SetChild::Binding { name: String::from("dup"), start: 4, value: leaf() },
            SetChild::Binding { name: String::from("dup"), start: 13, value: leaf() },
        ],
        body: Box::new(NixExpr::AttrSet {
            children: vec![SetChild::Inherit {
                has_from: false,
                names: vec![String::from("dup")],
            }],
        }),
    };
    let entries = collect_entries(&toks, &root, "let");
    assert_eq!(entries.len(), 1);
    assert_eq!(entries[0].description, vec![String::from("second")]);
}

#[test]
fn doc_item_lookup_parses_attached_comment() {
    let toks = add_tokens();
    let item = nixdoc::collect::retrieve_doc_item(&toks, &String::from("add"), 4).unwrap();
    assert_eq!(item.name, "add");
    assert_eq!(item.comment.doc, "adds two numbers");
    assert_eq!(item.comment.doc_type, None);
    assert!(item.args.is_empty());
}

#[test]
fn doc_item_lookup_fails_without_comment() {
    let toks = add_tokens();
    // Token 8 (`a`) is preceded by `=` and whitespace, not by a comment.
    assert!(nixdoc::collect::retrieve_doc_item(&toks, &String::from("a"), 8).is_none());
}

#[test]
fn entry_information_attaches_lambda_args() {
    let toks = add_tokens();
    let value = NixExpr::Lambda { param: ident_param("a", 8), body: Box::new(leaf()) };
    let item =
        nixdoc::collect::collect_entry_information(&toks, &String::from("add"), 4, &value)
            .unwrap();
    assert_eq!(item.args.len(), 1);
    assert_eq!(flat_name(&item.args[0]).0, "a");
}

#[test]
fn collect_bindings_uses_given_scope() {
    let toks: Vec<Tok> = vec![];
    let node = NixExpr::AttrSet {
        children: vec![SetChild::Inherit {
            has_from: false,
            names: vec![String::from("known"), String::from("unknown")],
        }],
    };
    let entry = ManualEntry {
        category: String::from("c"),
        name: String::from("known"),
        description: vec![String::from("from the scope")],
        fn_type: None,
        example: None,
        args: vec![],
    };
    let scope = vec![(String::from("known"), entry)];
    let entries = nixdoc::collect::collect_bindings(&toks, &node, "c", &scope);
    assert_eq!(entries.len(), 1);
    assert_eq!(entries[0].name, "known");
    assert_eq!(entries[0].description, vec![String::from("from the scope")]);
}
