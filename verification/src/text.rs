//! Character classes and line-oriented primitives over `Seq<char>`, with
//! executable counterparts on `&str`.

use vstd::prelude::*;
use vstd::string::*;

verus! {

/// The whitespace characters recognized by this crate.
pub open spec fn is_ws(c: char) -> bool {
    c == ' ' || c == '\t' || c == '\r' || c == '\n'
}

/// Every character of `s` is whitespace.
pub open spec fn all_ws(s: Seq<char>) -> bool {
    forall|i: int| 0 <= i < s.len() ==> is_ws(#[trigger] s[i])
}

/// Index of the first non-whitespace character, or `s.len()` if none.
pub open spec fn trim_start_idx(s: Seq<char>) -> int
    decreases s.len(),
{
    if s.len() == 0 {
        0
    } else if !is_ws(s[0]) {
        0
    } else {
        1 + trim_start_idx(s.subrange(1, s.len() as int))
    }
}

/// One past the index of the last non-whitespace character, or 0 if none.
pub open spec fn trim_end_idx(s: Seq<char>) -> int
    decreases s.len(),
{
    if s.len() == 0 {
        0
    } else if !is_ws(s[s.len() - 1]) {
        s.len() as int
    } else {
        trim_end_idx(s.subrange(0, s.len() - 1))
    }
}

/// `s` with leading and trailing whitespace removed.
pub open spec fn spec_trim(s: Seq<char>) -> Seq<char> {
    if trim_start_idx(s) < trim_end_idx(s) {
        s.subrange(trim_start_idx(s), trim_end_idx(s))
    } else {
        Seq::empty()
    }
}

/// Index of the first `'\n'`, or `s.len()` if none: the first line of `s` is
/// `s.subrange(0, line_end(s))`.
pub open spec fn line_end(s: Seq<char>) -> int
    decreases s.len(),
{
    if s.len() == 0 {
        0
    } else if s[0] == '\n' {
        0
    } else {
        1 + line_end(s.subrange(1, s.len() as int))
    }
}

/// `p` is a prefix of `s`.
pub open spec fn has_prefix(s: Seq<char>, p: Seq<char>) -> bool {
    p.len() <= s.len() && s.subrange(0, p.len() as int) == p
}

pub proof fn lemma_trim_start_idx(s: Seq<char>)
    ensures
        0 <= trim_start_idx(s) <= s.len(),
        forall|j: int| 0 <= j < trim_start_idx(s) ==> is_ws(#[trigger] s[j]),
        trim_start_idx(s) < s.len() ==> !is_ws(s[trim_start_idx(s)]),
    decreases s.len(),
{
    if s.len() != 0 && is_ws(s[0]) {
        let sub = s.subrange(1, s.len() as int);
        lemma_trim_start_idx(sub);
        assert forall|j: int| 0 <= j < trim_start_idx(s) implies is_ws(#[trigger] s[j]) by {
            if j >= 1 {
                assert(s[j] == sub[j - 1]);
            }
        }
        if trim_start_idx(s) < s.len() {
            assert(s[trim_start_idx(s)] == sub[trim_start_idx(s) - 1]);
        }
    }
}

pub proof fn lemma_trim_end_idx(s: Seq<char>)
    ensures
        0 <= trim_end_idx(s) <= s.len(),
        forall|j: int| trim_end_idx(s) <= j < s.len() ==> is_ws(#[trigger] s[j]),
        trim_end_idx(s) > 0 ==> !is_ws(s[trim_end_idx(s) - 1]),
    decreases s.len(),
{
    if s.len() != 0 && is_ws(s[s.len() - 1]) {
        let sub = s.subrange(0, s.len() - 1);
        lemma_trim_end_idx(sub);
        assert forall|j: int| trim_end_idx(s) <= j < s.len() implies is_ws(#[trigger] s[j]) by {
            if j < s.len() - 1 {
                assert(s[j] == sub[j]);
            }
        }
        if trim_end_idx(s) > 0 {
            assert(s[trim_end_idx(s) - 1] == sub[trim_end_idx(s) - 1]);
        }
    }
}

pub proof fn lemma_line_end(s: Seq<char>)
    ensures
        0 <= line_end(s) <= s.len(),
        forall|j: int| 0 <= j < line_end(s) ==> #[trigger] s[j] != '\n',
        line_end(s) < s.len() ==> s[line_end(s)] == '\n',
    decreases s.len(),
{
    if s.len() != 0 && s[0] != '\n' {
        let sub = s.subrange(1, s.len() as int);
        lemma_line_end(sub);
        assert forall|j: int| 0 <= j < line_end(s) implies #[trigger] s[j] != '\n' by {
            if j >= 1 {
                assert(s[j] == sub[j - 1]);
            }
        }
        if line_end(s) < s.len() {
            assert(s[line_end(s)] == sub[line_end(s) - 1]);
        }
    }
}

/// A trimmed string is left unchanged by trimming again.
pub proof fn lemma_trim_idempotent(s: Seq<char>)
    ensures
        spec_trim(spec_trim(s)) == spec_trim(s),
{
    lemma_trim_start_idx(s);
    lemma_trim_end_idx(s);
    let r = spec_trim(s);
    if trim_start_idx(s) < trim_end_idx(s) {
        assert(!is_ws(r[0]));
        assert(!is_ws(r[r.len() - 1]));
        assert(trim_start_idx(r) == 0);
        assert(trim_end_idx(r) == r.len());
        assert(r.subrange(0, r.len() as int) =~= r);
    } else {
        assert(r.len() == 0);
        assert(spec_trim(r) =~= Seq::<char>::empty());
    }
}

/// Trimming yields the empty sequence exactly when `s` is all whitespace.
pub proof fn lemma_trim_empty_iff_all_ws(s: Seq<char>)
    ensures
        spec_trim(s).len() == 0 <==> all_ws(s),
{
    lemma_trim_start_idx(s);
    lemma_trim_end_idx(s);
    if all_ws(s) {
        if trim_start_idx(s) < trim_end_idx(s) {
            assert(!is_ws(s[trim_start_idx(s)]));
        }
    } else {
        let i = choose|i: int| 0 <= i < s.len() && !is_ws(s[i]);
        assert(trim_start_idx(s) <= i);
        assert(trim_end_idx(s) > i);
    }
}

/// Executable whitespace test for one character.
pub fn ws_char(c: char) -> (b: bool)
    ensures
        b == is_ws(c),
{
    c == ' ' || c == '\t' || c == '\r' || c == '\n'
}

/// Executable trim; returns the slice of `s` with surrounding whitespace
/// removed.
pub fn trim_str(s: &str) -> (r: &str)
    ensures
        r@ == spec_trim(s@),
{
    proof {
        lemma_trim_start_idx(s@);
        lemma_trim_end_idx(s@);
    }
    let n: usize = s.unicode_len();
    let mut lo: usize = 0;
    while lo < n && ws_char(s.get_char(lo))
        invariant
            0 <= lo <= n,
            n == s@.len(),
            forall|j: int| 0 <= j < lo ==> is_ws(#[trigger] s@[j]),
        decreases n - lo,
    {
        lo = lo + 1;
    }
    proof {
        assert(lo == trim_start_idx(s@));
    }
    let mut hi: usize = n;
    while hi > lo && ws_char(s.get_char(hi - 1))
        invariant
            lo <= hi <= n,
            n == s@.len(),
            forall|j: int| hi <= j < n ==> is_ws(#[trigger] s@[j]),
            lo == trim_start_idx(s@),
        decreases hi,
    {
        hi = hi - 1;
    }
    if lo < hi {
        proof {
            assert(hi == trim_end_idx(s@));
        }
        s.substring_char(lo, hi)
    } else {
        proof {
            if trim_start_idx(s@) < trim_end_idx(s@) {
                assert(is_ws(s@[trim_start_idx(s@)]));
            }
            reveal_strlit("");
            assert(""@ =~= Seq::<char>::empty());
        }
        ""
    }
}

/// Executable search for the first newline.
pub fn find_line_end(s: &str) -> (e: usize)
    ensures
        e == line_end(s@),
{
    proof {
        lemma_line_end(s@);
    }
    let n: usize = s.unicode_len();
    let mut i: usize = 0;
    while i < n && s.get_char(i) != '\n'
        invariant
            0 <= i <= n,
            n == s@.len(),
            forall|j: int| 0 <= j < i ==> #[trigger] s@[j] != '\n',
        decreases n - i,
    {
        i = i + 1;
    }
    proof {
        assert(i == line_end(s@));
    }
    i
}

/// Executable all-whitespace test.
pub fn is_all_ws(s: &str) -> (b: bool)
    ensures
        b == all_ws(s@),
{
    let n: usize = s.unicode_len();
    let mut i: usize = 0;
    while i < n
        invariant
            0 <= i <= n,
            n == s@.len(),
            forall|j: int| 0 <= j < i ==> is_ws(#[trigger] s@[j]),
        decreases n - i,
    {
        let c = s.get_char(i);
        if !(c == ' ' || c == '\t' || c == '\r' || c == '\n') {
            return false;
        }
        i = i + 1;
    }
    true
}

} // verus!
