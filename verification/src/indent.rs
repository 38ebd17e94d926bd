//! Indentation normalization for comment sections.
//!
//! A section of a doc comment keeps the indentation the parser saw: the first
//! line starts right after the comment marker while the remaining lines carry
//! the source indentation.  Normalization trims the first line, removes the
//! longest common leading whitespace from the block of remaining lines, and
//! trims the result as a whole.

use vstd::prelude::*;
use vstd::string::*;
use crate::text::{
    all_ws, find_line_end, has_prefix, is_all_ws, is_ws, lemma_line_end, lemma_trim_start_idx,
    line_end, spec_trim, trim_start_idx, trim_str, ws_char,
};

verus! {

/// Longest common prefix of two character sequences.
pub open spec fn lcp(a: Seq<char>, b: Seq<char>) -> Seq<char>
    decreases a.len(),
{
    if a.len() == 0 || b.len() == 0 || a[0] != b[0] {
        Seq::empty()
    } else {
        seq![a[0]] + lcp(a.subrange(1, a.len() as int), b.subrange(1, b.len() as int))
    }
}

pub proof fn lemma_lcp(a: Seq<char>, b: Seq<char>)
    ensures
        0 <= lcp(a, b).len() <= a.len(),
        lcp(a, b).len() <= b.len(),
        lcp(a, b) == a.subrange(0, lcp(a, b).len() as int),
        forall|j: int| 0 <= j < lcp(a, b).len() ==> a[j] == b[j],
        (lcp(a, b).len() < a.len() && lcp(a, b).len() < b.len()) ==> a[lcp(a, b).len() as int]
            != b[lcp(a, b).len() as int],
    decreases a.len(),
{
    if a.len() == 0 || b.len() == 0 || a[0] != b[0] {
        assert(lcp(a, b) =~= a.subrange(0, 0));
    } else {
        let ta = a.subrange(1, a.len() as int);
        let tb = b.subrange(1, b.len() as int);
        lemma_lcp(ta, tb);
        let k = lcp(ta, tb).len() as int;
        assert(lcp(a, b) =~= a.subrange(0, k + 1));
        assert forall|j: int| 0 <= j < lcp(a, b).len() implies a[j] == b[j] by {
            if j >= 1 {
                assert(ta[j - 1] == tb[j - 1]);
            }
        }
        if k + 1 < a.len() && k + 1 < b.len() {
            assert(ta[k] == a[k + 1] && tb[k] == b[k + 1]);
        }
    }
}

/// The leading whitespace of a line.
pub open spec fn ws_prefix(l: Seq<char>) -> Seq<char> {
    l.subrange(0, trim_start_idx(l))
}

/// Longest common leading whitespace of the lines of `s` that contain a
/// non-whitespace character; `None` when no line does.
pub open spec fn dedent_prefix(s: Seq<char>) -> Option<Seq<char>>
    decreases s.len(),
    via dedent_prefix_decreases
{
    let e = line_end(s);
    let line = s.subrange(0, e);
    let here: Option<Seq<char>> = if all_ws(line) {
        None
    } else {
        Some(ws_prefix(line))
    };
    if e == s.len() {
        here
    } else {
        match (here, dedent_prefix(s.subrange(e + 1, s.len() as int))) {
            (None, r) => r,
            (Some(a), None) => Some(a),
            (Some(a), Some(b)) => Some(lcp(a, b)),
        }
    }
}

#[via_fn]
proof fn dedent_prefix_decreases(s: Seq<char>) {
    lemma_line_end(s);
}

/// Each line of `s` with the prefix `p` removed; lines that hold only
/// whitespace are emptied instead.
pub open spec fn dedent_lines(s: Seq<char>, p: Seq<char>) -> Seq<char>
    decreases s.len(),
    via dedent_lines_decreases
{
    let e = line_end(s);
    let line = s.subrange(0, e);
    let stripped: Seq<char> = if all_ws(line) {
        Seq::empty()
    } else if has_prefix(line, p) {
        line.subrange(p.len() as int, line.len() as int)
    } else {
        line
    };
    if e == s.len() {
        stripped
    } else {
        stripped + seq!['\n'] + dedent_lines(s.subrange(e + 1, s.len() as int), p)
    }
}

#[via_fn]
proof fn dedent_lines_decreases(s: Seq<char>, p: Seq<char>) {
    lemma_line_end(s);
}

/// Remove the longest common leading whitespace from the lines of `s`,
/// emptying lines that are whitespace only.
pub open spec fn spec_dedent(s: Seq<char>) -> Seq<char> {
    match dedent_prefix(s) {
        None => dedent_lines(s, Seq::empty()),
        Some(p) => dedent_lines(s, p),
    }
}

/// Normalize one comment section: trim the first line, dedent the block of
/// remaining lines, trim the whole; `None` when nothing remains.
pub open spec fn spec_normalize(raw: Seq<char>) -> Option<Seq<char>> {
    let e = line_end(raw);
    let joined: Seq<char> = if e == raw.len() {
        raw
    } else {
        spec_trim(raw.subrange(0, e)) + seq!['\n'] + spec_dedent(
            raw.subrange(e + 1, raw.len() as int),
        )
    };
    let t = spec_trim(joined);
    if t.len() == 0 {
        None
    } else {
        Some(t)
    }
}

/// Executable longest common prefix.
pub fn lcp_str<'a>(a: &'a str, b: &str) -> (r: &'a str)
    ensures
        r@ == lcp(a@, b@),
{
    proof {
        lemma_lcp(a@, b@);
    }
    let na: usize = a.unicode_len();
    let nb: usize = b.unicode_len();
    let mut i: usize = 0;
    while i < na && i < nb && a.get_char(i) == b.get_char(i)
        invariant
            0 <= i <= na,
            i <= nb,
            na == a@.len(),
            nb == b@.len(),
            forall|j: int| 0 <= j < i ==> a@[j] == b@[j],
        decreases na - i,
    {
        i = i + 1;
    }
    proof {
        let k = lcp(a@, b@).len() as int;
        if i < k {
            assert(a@[i as int] == b@[i as int]);
        }
        if k < i {
            assert(a@[k] == b@[k]);
        }
        assert(i == k);
    }
    a.substring_char(0, i)
}

/// Executable leading-whitespace length.
pub fn ws_prefix_len(s: &str) -> (k: usize)
    ensures
        k == trim_start_idx(s@),
        k <= s@.len(),
{
    proof {
        lemma_trim_start_idx(s@);
    }
    let n: usize = s.unicode_len();
    let mut i: usize = 0;
    while i < n && ws_char(s.get_char(i))
        invariant
            0 <= i <= n,
            n == s@.len(),
            forall|j: int| 0 <= j < i ==> is_ws(#[trigger] s@[j]),
        decreases n - i,
    {
        i = i + 1;
    }
    proof {
        assert(i == trim_start_idx(s@));
    }
    i
}

/// Executable prefix test.
pub fn str_has_prefix(s: &str, p: &str) -> (b: bool)
    ensures
        b == has_prefix(s@, p@),
{
    let n: usize = s.unicode_len();
    let np: usize = p.unicode_len();
    if np > n {
        return false;
    }
    let mut i: usize = 0;
    while i < np && s.get_char(i) == p.get_char(i)
        invariant
            0 <= i <= np,
            np <= n,
            n == s@.len(),
            np == p@.len(),
            forall|j: int| 0 <= j < i ==> s@[j] == p@[j],
        decreases np - i,
    {
        i = i + 1;
    }
    if i == np {
        proof {
            assert(s@.subrange(0, p@.len() as int) =~= p@);
        }
        true
    } else {
        proof {
            assert(s@[i as int] != p@[i as int]);
            if has_prefix(s@, p@) {
                assert(s@.subrange(0, p@.len() as int)[i as int] == s@[i as int]);
            }
        }
        false
    }
}

fn dedent_prefix_str(s: &str) -> (r: Option<String>)
    ensures
        match r {
            Some(p) => dedent_prefix(s@) == Some(p@),
            None => dedent_prefix(s@) is None,
        },
    decreases s@.len(),
{
    proof {
        lemma_line_end(s@);
    }
    let n: usize = s.unicode_len();
    let e: usize = find_line_end(s);
    let line = s.substring_char(0, e);
    let here: Option<String> = if is_all_ws(line) {
        None
    } else {
        let k: usize = ws_prefix_len(line);
        Some(String::from_str(line.substring_char(0, k)))
    };
    if e == n {
        here
    } else {
        let rest = s.substring_char(e + 1, n);
        let r = dedent_prefix_str(rest);
        match (here, r) {
            (None, r) => r,
            (Some(a), None) => Some(a),
            (Some(a), Some(b)) => Some(lcp_str(a.as_str(), b.as_str()).to_owned()),
        }
    }
}

fn dedent_lines_str(s: &str, p: &str) -> (r: String)
    ensures
        r@ == dedent_lines(s@, p@),
    decreases s@.len(),
{
    proof {
        lemma_line_end(s@);
    }
    let n: usize = s.unicode_len();
    let e: usize = find_line_end(s);
    let line = s.substring_char(0, e);
    let mut out: String;
    if is_all_ws(line) {
        out = String::new();
    } else if str_has_prefix(line, p) {
        let np: usize = p.unicode_len();
        out = String::from_str(line.substring_char(np, e));
    } else {
        out = String::from_str(line);
    }
    if e == n {
        out
    } else {
        proof {
            reveal_strlit("\n");
            assert("\n"@ =~= seq!['\n']);
        }
        out.append("\n");
        let rest = s.substring_char(e + 1, n);
        let tail = dedent_lines_str(rest, p);
        out.append(tail.as_str());
        out
    }
}

/// Executable dedent over a whole block of lines.
pub fn dedent(s: &str) -> (r: String)
    ensures
        r@ == spec_dedent(s@),
{
    let p = dedent_prefix_str(s);
    match p {
        None => {
            proof {
                reveal_strlit("");
                assert(""@ =~= Seq::<char>::empty());
            }
            dedent_lines_str(s, "")
        },
        Some(p) => dedent_lines_str(s, p.as_str()),
    }
}

/// Dedent everything but the first line, whose indentation is removed
/// entirely; the result is trimmed as a whole and dropped when empty.
pub fn handle_indentation(raw: &str) -> (r: Option<String>)
    ensures
        match r {
            Some(t) => spec_normalize(raw@) == Some(t@),
            None => spec_normalize(raw@) is None,
        },
{
    proof {
        lemma_line_end(raw@);
    }
    let n: usize = raw.unicode_len();
    let e: usize = find_line_end(raw);
    let t: String;
    if e == n {
        t = String::from_str(trim_str(raw));
    } else {
        proof {
            reveal_strlit("\n");
            assert("\n"@ =~= seq!['\n']);
        }
        let first = raw.substring_char(0, e);
        let rest = raw.substring_char(e + 1, n);
        let mut joined = String::from_str(trim_str(first));
        joined.append("\n");
        let ded = dedent(rest);
        joined.append(ded.as_str());
        t = String::from_str(trim_str(joined.as_str()));
    }
    if t.unicode_len() == 0 {
        None
    } else {
        Some(t)
    }
}

/// The lines of `s` after the first.
pub open spec fn rest_lines(s: Seq<char>) -> Seq<char> {
    s.subrange(line_end(s) + 1, s.len() as int)
}

/// A string is in normal form when it carries no surrounding whitespace, its
/// first line carries no trailing whitespace, and the block of its remaining
/// lines is already dedented.
pub open spec fn is_normalized(s: Seq<char>) -> bool {
    &&& s.len() > 0
    &&& spec_trim(s) == s
    &&& {
        let fl = s.subrange(0, line_end(s));
        spec_trim(fl) == fl
    }
    &&& (line_end(s) < s.len() ==> spec_dedent(rest_lines(s)) == rest_lines(s))
}

/// Every normalization result without a newline is in normal form, so
/// normalizing it again returns it unchanged.
pub proof fn lemma_single_line_result_normalized(raw: Seq<char>)
    requires
        spec_normalize(raw) is Some,
        line_end(spec_normalize(raw)->Some_0) == spec_normalize(raw)->Some_0.len(),
    ensures
        is_normalized(spec_normalize(raw)->Some_0),
        spec_normalize(spec_normalize(raw)->Some_0) == spec_normalize(raw),
{
    let e = line_end(raw);
    let joined: Seq<char> = if e == raw.len() {
        raw
    } else {
        spec_trim(raw.subrange(0, e)) + seq!['\n'] + spec_dedent(
            raw.subrange(e + 1, raw.len() as int),
        )
    };
    let t = spec_normalize(raw)->Some_0;
    assert(t == spec_trim(joined));
    crate::text::lemma_trim_idempotent(joined);
    assert(spec_trim(t) == t);
    assert(t.subrange(0, line_end(t)) =~= t);
    lemma_normalize_idempotent(t);
}

/// Normalization is idempotent on normal forms: a string in normal form
/// normalizes to itself, so normalizing it again changes nothing.
pub proof fn lemma_normalize_idempotent(s: Seq<char>)
    requires
        is_normalized(s),
    ensures
        spec_normalize(s) == Some(s),
{
    lemma_line_end(s);
    let e = line_end(s);
    if e == s.len() {
        assert(spec_trim(s).len() > 0);
    } else {
        let fl = s.subrange(0, e);
        let rl = rest_lines(s);
        assert(spec_trim(fl) + seq!['\n'] + spec_dedent(rl) =~= s);
        assert(spec_trim(s).len() > 0);
    }
}

} // verus!
