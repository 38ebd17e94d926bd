//! The doc-comment content parser: a line-oriented scan that splits raw
//! comment text into a description, an optional type signature and an
//! optional usage example, then normalizes each section's indentation.

use vstd::prelude::*;
use vstd::string::*;
use crate::indent::{handle_indentation, spec_dedent, spec_normalize, str_has_prefix};
use crate::text::{
    all_ws, find_line_end, has_prefix, is_ws, lemma_line_end, lemma_trim_empty_iff_all_ws,
    line_end, spec_trim, trim_str,
};

verus! {

/// The section a scanned line belongs to.
#[derive(Clone, Copy, PartialEq, Eq, Structural)]
pub enum Section {
    Desc,
    Ty,
    Ex,
}

/// The parsed, indentation-normalized sections of a raw comment.
pub struct DocComment {
    /// Primary documentation string.
    pub doc: String,
    /// Optional type annotation for the thing being documented.
    pub doc_type: Option<String>,
    /// Usage example, interpreted as a single code block.
    pub example: Option<String>,
}

/// Specification-level value of a [`DocComment`].
pub struct DocCommentV {
    pub doc: Seq<char>,
    pub doc_type: Option<Seq<char>>,
    pub example: Option<Seq<char>>,
}

impl View for DocComment {
    type V = DocCommentV;

    open spec fn view(&self) -> DocCommentV {
        DocCommentV {
            doc: self.doc@,
            doc_type: match self.doc_type {
                Some(s) => Some(s@),
                None => None,
            },
            example: match self.example {
                Some(s) => Some(s@),
                None => None,
            },
        }
    }
}

/// The keyword that opens the type section.
pub open spec fn type_kw() -> Seq<char> {
    seq!['T', 'y', 'p', 'e', ':']
}

/// The keyword that opens the example section.
pub open spec fn example_kw() -> Seq<char> {
    seq!['E', 'x', 'a', 'm', 'p', 'l', 'e', ':']
}

/// One pass of the section-switching scan, starting in section `st`: returns
/// the description, type and example buffers.  Lines keep their terminators;
/// a line whose trimmed form starts with a keyword switches the section and
/// contributes only the text after the keyword.
pub open spec fn spec_sections(s: Seq<char>, st: Section) -> (Seq<char>, Seq<char>, Seq<char>)
    decreases s.len(),
    via spec_sections_decreases
{
    if s.len() == 0 {
        (Seq::empty(), Seq::empty(), Seq::empty())
    } else {
        let e = line_end(s);
        let piece: Seq<char> = if e < s.len() {
            s.subrange(0, e + 1)
        } else {
            s
        };
        let rest: Seq<char> = if e < s.len() {
            s.subrange(e + 1, s.len() as int)
        } else {
            Seq::empty()
        };
        let t = spec_trim(piece);
        if has_prefix(t, type_kw()) {
            let r = spec_sections(rest, Section::Ty);
            (r.0, t.subrange(5, t.len() as int) + seq!['\n'] + r.1, r.2)
        } else if has_prefix(t, example_kw()) {
            let r = spec_sections(rest, Section::Ex);
            (r.0, r.1, t.subrange(8, t.len() as int) + seq!['\n'] + r.2)
        } else {
            let r = spec_sections(rest, st);
            match st {
                Section::Desc => (piece + r.0, r.1, r.2),
                Section::Ty => (r.0, piece + r.1, r.2),
                Section::Ex => (r.0, r.1, piece + r.2),
            }
        }
    }
}

#[via_fn]
proof fn spec_sections_decreases(s: Seq<char>, st: Section) {
    lemma_line_end(s);
}

/// What parsing a raw comment yields.
pub open spec fn spec_parse_doc_comment(raw: Seq<char>) -> DocCommentV {
    let r = spec_sections(raw, Section::Desc);
    DocCommentV {
        doc: match spec_normalize(r.0) {
            Some(d) => d,
            None => Seq::empty(),
        },
        doc_type: spec_normalize(r.1),
        example: spec_normalize(r.2),
    }
}

fn starts_type(t: &str) -> (b: bool)
    ensures
        b == has_prefix(t@, type_kw()),
{
    proof {
        reveal_strlit("Type:");
        assert("Type:"@ =~= type_kw());
    }
    str_has_prefix(t, "Type:")
}

fn starts_example(t: &str) -> (b: bool)
    ensures
        b == has_prefix(t@, example_kw()),
{
    proof {
        reveal_strlit("Example:");
        assert("Example:"@ =~= example_kw());
    }
    str_has_prefix(t, "Example:")
}

fn sections(s: &str, st: Section) -> (r: (String, String, String))
    ensures
        (r.0@, r.1@, r.2@) == spec_sections(s@, st),
    decreases s@.len(),
{
    let n: usize = s.unicode_len();
    if n == 0 {
        return (String::new(), String::new(), String::new());
    }
    proof {
        lemma_line_end(s@);
        reveal_strlit("\n");
        assert("\n"@ =~= seq!['\n']);
    }
    let e: usize = find_line_end(s);
    let piece: &str = if e < n {
        s.substring_char(0, e + 1)
    } else {
        s
    };
    let rest: &str = if e < n {
        s.substring_char(e + 1, n)
    } else {
        s.substring_char(n, n)
    };
    proof {
        if e >= n {
            assert(rest@ =~= Seq::<char>::empty());
        }
    }
    let t = trim_str(piece);
    if starts_type(t) {
        let r = sections(rest, Section::Ty);
        let mut ty = String::from_str(t.substring_char(5, t.unicode_len()));
        ty.append("\n");
        ty.append(r.1.as_str());
        (r.0, ty, r.2)
    } else if starts_example(t) {
        let r = sections(rest, Section::Ex);
        let mut ex = String::from_str(t.substring_char(8, t.unicode_len()));
        ex.append("\n");
        ex.append(r.2.as_str());
        (r.0, r.1, ex)
    } else {
        let r = sections(rest, st);
        match st {
            Section::Desc => {
                let mut d = String::from_str(piece);
                d.append(r.0.as_str());
                (d, r.1, r.2)
            },
            Section::Ty => {
                let mut ty = String::from_str(piece);
                ty.append(r.1.as_str());
                (r.0, ty, r.2)
            },
            Section::Ex => {
                let mut ex = String::from_str(piece);
                ex.append(r.2.as_str());
                (r.0, r.1, ex)
            },
        }
    }
}

/// Split raw comment text into its three sections and normalize each; the
/// description falls back to the empty string, the other two to `None`.
pub fn parse_doc_comment(raw: &str) -> (r: DocComment)
    ensures
        r@ == spec_parse_doc_comment(raw@),
{
    let bufs = sections(raw, Section::Desc);
    let doc = match handle_indentation(bufs.0.as_str()) {
        Some(d) => d,
        None => String::new(),
    };
    let doc_type = handle_indentation(bufs.1.as_str());
    let example = handle_indentation(bufs.2.as_str());
    DocComment { doc, doc_type, example }
}

/// Every character of each buffer that `spec_sections` yields on whitespace
/// input is whitespace, and the keyword buffers stay empty.
proof fn lemma_sections_all_ws(s: Seq<char>, st: Section)
    requires
        all_ws(s),
    ensures
        spec_sections(s, st).0 == if st == Section::Desc { s } else { Seq::<char>::empty() },
        spec_sections(s, st).1 == if st == Section::Ty { s } else { Seq::<char>::empty() },
        spec_sections(s, st).2 == if st == Section::Ex { s } else { Seq::<char>::empty() },
    decreases s.len(),
{
    if s.len() > 0 {
        lemma_line_end(s);
        let e = line_end(s);
        let piece: Seq<char> = if e < s.len() {
            s.subrange(0, e + 1)
        } else {
            s
        };
        let rest: Seq<char> = if e < s.len() {
            s.subrange(e + 1, s.len() as int)
        } else {
            Seq::empty()
        };
        assert(all_ws(piece));
        assert(all_ws(rest));
        lemma_trim_empty_iff_all_ws(piece);
        assert(spec_trim(piece).len() == 0);
        lemma_sections_all_ws(rest, st);
        if e < s.len() {
            assert(piece + rest =~= s);
            assert(piece + Seq::<char>::empty() =~= piece);
        }
        match st {
            Section::Desc => {
                assert(spec_sections(s, st).0 =~= s);
            },
            Section::Ty => {
                assert(spec_sections(s, st).1 =~= s);
            },
            Section::Ex => {
                assert(spec_sections(s, st).2 =~= s);
            },
        }
    }
}

/// Dedenting whitespace yields whitespace.
proof fn lemma_dedent_all_ws(s: Seq<char>, p: Seq<char>)
    requires
        all_ws(s),
    ensures
        all_ws(crate::indent::dedent_lines(s, p)),
    decreases s.len(),
{
    lemma_line_end(s);
    let e = line_end(s);
    let line = s.subrange(0, e);
    assert(all_ws(line));
    lemma_trim_empty_iff_all_ws(line);
    if e < s.len() {
        let rest = s.subrange(e + 1, s.len() as int);
        assert(all_ws(rest));
        lemma_dedent_all_ws(rest, p);
        let r = crate::indent::dedent_lines(s, p);
        assert forall|i: int| 0 <= i < r.len() implies is_ws(#[trigger] r[i]) by {
            let stripped: Seq<char> = if all_ws(line) {
                Seq::empty()
            } else if has_prefix(line, p) {
                line.subrange(p.len() as int, line.len() as int)
            } else {
                line
            };
            if i < stripped.len() {
            } else if i == stripped.len() {
                assert(r[i] == '\n');
            }
        }
    }
}

/// Normalizing an all-whitespace section yields nothing.
proof fn lemma_normalize_all_ws(s: Seq<char>)
    requires
        all_ws(s),
    ensures
        spec_normalize(s) is None,
{
    lemma_line_end(s);
    let e = line_end(s);
    if e == s.len() {
        lemma_trim_empty_iff_all_ws(s);
    } else {
        let first = s.subrange(0, e);
        let rest = s.subrange(e + 1, s.len() as int);
        assert(all_ws(first));
        assert(all_ws(rest));
        lemma_trim_empty_iff_all_ws(first);
        match crate::indent::dedent_prefix(rest) {
            None => lemma_dedent_all_ws(rest, Seq::empty()),
            Some(p) => lemma_dedent_all_ws(rest, p),
        }
        let joined = spec_trim(first) + seq!['\n'] + spec_dedent(rest);
        assert(all_ws(joined));
        lemma_trim_empty_iff_all_ws(joined);
    }
}

/// A comment holding only whitespace parses to an empty description — the
/// empty string, not an absent one — and to absent type and example
/// sections.
pub proof fn lemma_parse_blank_comment(raw: Seq<char>)
    requires
        all_ws(raw),
    ensures
        spec_parse_doc_comment(raw).doc == Seq::<char>::empty(),
        spec_parse_doc_comment(raw).doc_type is None,
        spec_parse_doc_comment(raw).example is None,
{
    lemma_sections_all_ws(raw, Section::Desc);
    lemma_normalize_all_ws(raw);
    lemma_normalize_all_ws(Seq::empty());
}

/// Some line of `s`, trimmed, starts with `kw`.
pub open spec fn has_kw_line(s: Seq<char>, kw: Seq<char>) -> bool
    decreases s.len(),
    via has_kw_line_decreases
{
    if s.len() == 0 {
        false
    } else {
        let e = line_end(s);
        let piece: Seq<char> = if e < s.len() {
            s.subrange(0, e + 1)
        } else {
            s
        };
        let rest: Seq<char> = if e < s.len() {
            s.subrange(e + 1, s.len() as int)
        } else {
            Seq::empty()
        };
        has_prefix(spec_trim(piece), kw) || has_kw_line(rest, kw)
    }
}

#[via_fn]
proof fn has_kw_line_decreases(s: Seq<char>, kw: Seq<char>) {
    lemma_line_end(s);
}

proof fn lemma_sections_no_type(s: Seq<char>, st: Section)
    requires
        !has_kw_line(s, type_kw()),
        st != Section::Ty,
    ensures
        spec_sections(s, st).1 == Seq::<char>::empty(),
    decreases s.len(),
{
    if s.len() > 0 {
        lemma_line_end(s);
        let e = line_end(s);
        let rest: Seq<char> = if e < s.len() {
            s.subrange(e + 1, s.len() as int)
        } else {
            Seq::empty()
        };
        let piece: Seq<char> = if e < s.len() {
            s.subrange(0, e + 1)
        } else {
            s
        };
        let t = spec_trim(piece);
        if has_prefix(t, example_kw()) {
            lemma_sections_no_type(rest, Section::Ex);
        } else {
            lemma_sections_no_type(rest, st);
        }
    }
}

/// When no line of the comment opens a type section, the parsed type is
/// absent.
pub proof fn lemma_parse_no_type_section(raw: Seq<char>)
    requires
        !has_kw_line(raw, type_kw()),
    ensures
        spec_parse_doc_comment(raw).doc_type is None,
{
    lemma_sections_no_type(raw, Section::Desc);
    lemma_normalize_all_ws(Seq::empty());
}

proof fn lemma_sections_no_example(s: Seq<char>, st: Section)
    requires
        !has_kw_line(s, example_kw()),
        st != Section::Ex,
    ensures
        spec_sections(s, st).2 == Seq::<char>::empty(),
    decreases s.len(),
{
    if s.len() > 0 {
        lemma_line_end(s);
        let e = line_end(s);
        let rest: Seq<char> = if e < s.len() {
            s.subrange(e + 1, s.len() as int)
        } else {
            Seq::empty()
        };
        let piece: Seq<char> = if e < s.len() {
            s.subrange(0, e + 1)
        } else {
            s
        };
        let t = spec_trim(piece);
        if has_prefix(t, type_kw()) {
            lemma_sections_no_example(rest, Section::Ty);
        } else {
            lemma_sections_no_example(rest, st);
        }
    }
}

/// When no line of the comment opens an example section, the parsed example
/// is absent.
pub proof fn lemma_parse_no_example_section(raw: Seq<char>)
    requires
        !has_kw_line(raw, example_kw()),
    ensures
        spec_parse_doc_comment(raw).example is None,
{
    lemma_sections_no_example(raw, Section::Desc);
    lemma_normalize_all_ws(Seq::empty());
}

} // verus!
