//! The comment locator: given the token stream of a source file and the
//! index of a node's first token, walk backward to find the comment attached
//! to the node, merging adjacent line comments and optionally rejecting
//! line-style comments altogether.

use vstd::prelude::*;
use vstd::string::*;
use crate::text::{has_prefix, spec_trim, trim_str};

verus! {

/// The kinds of token the locator distinguishes.
#[derive(Clone, Copy, PartialEq, Eq, Structural, Debug)]
pub enum TokKind {
    Whitespace,
    Comment,
    Other,
}

/// One token of the source file: its kind and its raw source text.
pub struct Tok {
    pub kind: TokKind,
    pub text: String,
}

/// The raw text starts a line comment.
pub open spec fn starts_hash(t: Seq<char>) -> bool {
    t.len() >= 1 && t[0] == '#'
}

/// The raw text starts a block comment.
pub open spec fn starts_block(t: Seq<char>) -> bool {
    t.len() >= 2 && t[0] == '/' && t[1] == '*'
}

/// The content of a comment token: the text with the `#` or `/* */` markers
/// removed.
pub open spec fn comment_text(t: Seq<char>) -> Seq<char> {
    if starts_hash(t) {
        t.subrange(1, t.len() as int)
    } else if starts_block(t) {
        if t.len() >= 4 && t[t.len() - 2] == '*' && t[t.len() - 1] == '/' {
            t.subrange(2, t.len() - 2)
        } else {
            t.subrange(2, t.len() as int)
        }
    } else {
        t
    }
}

/// Whitespace that continues a line-comment chain: it starts with a newline
/// and holds no second one, so the adjacent line carries the next comment.
pub open spec fn chain_ws(w: Seq<char>) -> bool {
    w.len() >= 1 && w[0] == '\n' && (forall|j: int| 1 <= j < w.len() ==> w[j] != '\n')
}

/// Index of the token before position `start`, skipping at most one
/// whitespace token; `None` when no such token exists.
pub open spec fn prev_skip_ws(toks: Seq<Tok>, start: int) -> Option<int> {
    if start <= 0 || start > toks.len() {
        None
    } else if toks[start - 1].kind == TokKind::Whitespace {
        if start - 1 == 0 {
            None
        } else {
            Some(start - 2)
        }
    } else {
        Some(start - 1)
    }
}

/// Walk backward from the comment at `i` across line comments (each past at
/// most one whitespace token) until a comment that is not line-style is
/// found; `None` when the walk runs out of comments first.
pub open spec fn back_to_non_hash(toks: Seq<Tok>, i: int) -> Option<int>
    decreases i,
{
    if i < 0 || i >= toks.len() {
        None
    } else if !starts_hash(toks[i].text@) {
        Some(i)
    } else {
        match prev_skip_ws(toks, i) {
            None => None,
            Some(j) => if toks[j].kind != TokKind::Comment {
                None
            } else {
                back_to_non_hash(toks, j)
            },
        }
    }
}

/// The backward merge of adjacent line comments ending at token `i`: trimmed
/// contents joined by single spaces.  When the chain stops because the
/// adjacent previous line holds something other than a line comment, the
/// join still starts with the separating space.
pub open spec fn spec_merge(toks: Seq<Tok>, i: int) -> Seq<char>
    decreases i,
{
    let t = spec_trim(comment_text(toks[i].text@));
    if i < 1 || toks[i - 1].kind != TokKind::Whitespace || !chain_ws(toks[i - 1].text@) {
        t
    } else if i < 2 {
        seq![' '] + t
    } else if toks[i - 2].kind == TokKind::Comment && starts_hash(toks[i - 2].text@) {
        spec_merge(toks, i - 2) + seq![' '] + t
    } else {
        seq![' '] + t
    }
}

/// What the comment locator returns for the node whose first token sits at
/// index `start`.
pub open spec fn spec_find_comment(toks: Seq<Tok>, start: int, allow_line: bool) -> Option<
    Seq<char>,
> {
    match prev_skip_ws(toks, start) {
        None => None,
        Some(i) => if toks[i].kind != TokKind::Comment {
            None
        } else {
            let i2: Option<int> = if !allow_line && starts_hash(toks[i].text@) {
                back_to_non_hash(toks, i)
            } else {
                Some(i)
            };
            match i2 {
                None => None,
                Some(k) => {
                    let tx = toks[k].text@;
                    if starts_block(tx) {
                        Some(comment_text(tx))
                    } else if starts_hash(tx) {
                        Some(spec_merge(toks, k))
                    } else {
                        None
                    }
                },
            }
        },
    }
}

fn comment_text_str(t: &str) -> (r: &str)
    ensures
        r@ == comment_text(t@),
{
    let n: usize = t.unicode_len();
    if n >= 1 && t.get_char(0) == '#' {
        t.substring_char(1, n)
    } else if n >= 2 && t.get_char(0) == '/' && t.get_char(1) == '*' {
        if n >= 4 && t.get_char(n - 2) == '*' && t.get_char(n - 1) == '/' {
            t.substring_char(2, n - 2)
        } else {
            t.substring_char(2, n)
        }
    } else {
        t
    }
}

fn is_chain_ws(w: &str) -> (b: bool)
    ensures
        b == chain_ws(w@),
{
    let n: usize = w.unicode_len();
    if n == 0 || w.get_char(0) != '\n' {
        return false;
    }
    let mut j: usize = 1;
    while j < n && w.get_char(j) != '\n'
        invariant
            1 <= j <= n,
            n == w@.len(),
            w@[0] == '\n',
            forall|k: int| 1 <= k < j ==> w@[k] != '\n',
        decreases n - j,
    {
        j = j + 1;
    }
    j == n
}

fn tok_starts_hash(t: &str) -> (b: bool)
    ensures
        b == starts_hash(t@),
{
    t.unicode_len() >= 1 && t.get_char(0) == '#'
}

fn tok_starts_block(t: &str) -> (b: bool)
    ensures
        b == starts_block(t@),
{
    t.unicode_len() >= 2 && t.get_char(0) == '/' && t.get_char(1) == '*'
}

fn merge_line_comments(toks: &Vec<Tok>, i: usize) -> (r: String)
    requires
        i < toks@.len(),
    ensures
        r@ == spec_merge(toks@, i as int),
    decreases i,
{
    let t = trim_str(comment_text_str(toks[i].text.as_str()));
    if i < 1 || !matches!(toks[i - 1].kind, TokKind::Whitespace) || !is_chain_ws(
        toks[i - 1].text.as_str(),
    ) {
        t.to_owned()
    } else if i < 2 {
        proof {
            reveal_strlit(" ");
            assert(" "@ =~= seq![' ']);
        }
        let mut out = String::from_str(" ");
        out.append(t);
        out
    } else if matches!(toks[i - 2].kind, TokKind::Comment) && tok_starts_hash(
        toks[i - 2].text.as_str(),
    ) {
        proof {
            reveal_strlit(" ");
            assert(" "@ =~= seq![' ']);
        }
        let mut out = merge_line_comments(toks, i - 2);
        out.append(" ");
        out.append(t);
        out
    } else {
        proof {
            reveal_strlit(" ");
            assert(" "@ =~= seq![' ']);
        }
        let mut out = String::from_str(" ");
        out.append(t);
        out
    }
}

/// Retrieve the documentation comment attached to the node whose first token
/// sits at index `start` of the file's token stream.
pub fn retrieve_doc_comment(toks: &Vec<Tok>, start: usize, allow_line_comments: bool) -> (r:
    Option<String>)
    requires
        start <= toks@.len(),
    ensures
        match r {
            Some(s) => spec_find_comment(toks@, start as int, allow_line_comments) == Some(s@),
            None => spec_find_comment(toks@, start as int, allow_line_comments) is None,
        },
{
    if start == 0 {
        return None;
    }
    let mut i: usize = start - 1;
    if matches!(toks[i].kind, TokKind::Whitespace) {
        if i == 0 {
            return None;
        }
        i = i - 1;
    }
    proof {
        assert(prev_skip_ws(toks@, start as int) == Some(i as int));
    }
    if !matches!(toks[i].kind, TokKind::Comment) {
        return None;
    }
    let ghost i0: int = i as int;
    if !allow_line_comments && tok_starts_hash(toks[i].text.as_str()) {
        // Line comments may hold remarks that are no documentation; walk
        // back to the closest block comment, rejecting the lookup when none
        // adjoins.
        loop
            invariant
                0 <= i < toks@.len(),
                start <= toks@.len(),
                toks@[i as int].kind == TokKind::Comment,
                prev_skip_ws(toks@, start as int) == Some(i0),
                0 <= i0 < toks@.len(),
                toks@[i0].kind == TokKind::Comment,
                !allow_line_comments,
                starts_hash(toks@[i0].text@),
                back_to_non_hash(toks@, i0) == back_to_non_hash(toks@, i as int),
            ensures
                0 <= i < toks@.len(),
                toks@[i as int].kind == TokKind::Comment,
                !starts_hash(toks@[i as int].text@),
                back_to_non_hash(toks@, i0) == Some(i as int),
            decreases i,
        {
            if !tok_starts_hash(toks[i].text.as_str()) {
                break;
            }
            if i == 0 {
                proof {
                    assert(prev_skip_ws(toks@, i as int) is None);
                    assert(back_to_non_hash(toks@, i as int) is None);
                }
                return None;
            }
            let mut j: usize = i - 1;
            if matches!(toks[j].kind, TokKind::Whitespace) {
                if j == 0 {
                    proof {
                        assert(prev_skip_ws(toks@, i as int) is None);
                        assert(back_to_non_hash(toks@, i as int) is None);
                    }
                    return None;
                }
                j = j - 1;
            }
            proof {
                assert(prev_skip_ws(toks@, i as int) == Some(j as int));
            }
            if !matches!(toks[j].kind, TokKind::Comment) {
                proof {
                    assert(back_to_non_hash(toks@, i as int) is None);
                }
                return None;
            }
            i = j;
        }
    }
    let tx = toks[i].text.as_str();
    if tok_starts_block(tx) {
        Some(comment_text_str(tx).to_owned())
    } else if tok_starts_hash(tx) {
        Some(merge_line_comments(toks, i))
    } else {
        None
    }
}

/// Only the token immediately before a node — past at most one whitespace
/// token — can attach a comment: when that position holds no comment token,
/// the locator returns nothing, whatever stands further away.
pub proof fn lemma_detached_comment_ignored(toks: Seq<Tok>, start: int, allow_line: bool)
    requires
        match prev_skip_ws(toks, start) {
            None => true,
            Some(i) => toks[i].kind != TokKind::Comment,
        },
    ensures
        spec_find_comment(toks, start, allow_line) is None,
{
}

proof fn lemma_back_all_hash(toks: Seq<Tok>, i: int)
    requires
        0 <= i < toks.len(),
        toks[i].kind == TokKind::Comment,
        forall|j: int|
            0 <= j <= i && (#[trigger] toks[j].kind) == TokKind::Comment ==> starts_hash(
                toks[j].text@,
            ),
    ensures
        back_to_non_hash(toks, i) is None,
    decreases i,
{
    match prev_skip_ws(toks, i) {
        None => {},
        Some(j) => {
            if toks[j].kind == TokKind::Comment {
                lemma_back_all_hash(toks, j);
            }
        },
    }
}

/// When line comments are disallowed and every comment before the node is
/// line-style — as when a line comment is separated from its binding by a
/// blank line with no block comment above — the locator returns nothing.
pub proof fn lemma_line_comments_rejected(toks: Seq<Tok>, start: int)
    requires
        forall|j: int|
            0 <= j < start && j < toks.len() && (#[trigger] toks[j].kind) == TokKind::Comment
                ==> starts_hash(toks[j].text@),
    ensures
        spec_find_comment(toks, start, false) is None,
{
    match prev_skip_ws(toks, start) {
        None => {},
        Some(i) => {
            if toks[i].kind == TokKind::Comment {
                lemma_back_all_hash(toks, i);
            }
        },
    }
}

/// The chain of adjacent line comments ending at token `i` continues one
/// token pair further back.
pub open spec fn chain_continues(toks: Seq<Tok>, i: int) -> bool {
    &&& i >= 2
    &&& toks[i - 1].kind == TokKind::Whitespace
    &&& chain_ws(toks[i - 1].text@)
    &&& toks[i - 2].kind == TokKind::Comment
    &&& starts_hash(toks[i - 2].text@)
}

/// The trimmed contents of the chain of adjacent line comments ending at
/// `i`, in source order.
pub open spec fn chain_texts(toks: Seq<Tok>, i: int) -> Seq<Seq<char>>
    decreases i,
{
    let t = spec_trim(comment_text(toks[i].text@));
    if i >= 2 && chain_continues(toks, i) {
        chain_texts(toks, i - 2).push(t)
    } else {
        seq![t]
    }
}

/// The first comment of the chain ending at `i`.
pub open spec fn chain_first(toks: Seq<Tok>, i: int) -> int
    decreases i,
{
    if i >= 2 && chain_continues(toks, i) {
        chain_first(toks, i - 2)
    } else {
        i
    }
}

/// `parts` joined by single spaces.
pub open spec fn join_sp(parts: Seq<Seq<char>>) -> Seq<char>
    decreases parts.len(),
{
    if parts.len() == 0 {
        Seq::empty()
    } else if parts.len() == 1 {
        parts[0]
    } else {
        join_sp(parts.drop_last()) + seq![' '] + parts.last()
    }
}

/// Merging the chain of adjacent line comments ending at `i` — when the
/// token before the chain does not itself sit on the adjacent previous line
/// — yields exactly the trimmed contents joined by single spaces, in source
/// order.
pub proof fn lemma_merge_is_space_join(toks: Seq<Tok>, i: int)
    requires
        0 <= i < toks.len(),
        ({
            let s = chain_first(toks, i);
            !(s >= 1 && toks[s - 1].kind == TokKind::Whitespace && chain_ws(toks[s - 1].text@))
        }),
    ensures
        spec_merge(toks, i) == join_sp(chain_texts(toks, i)),
    decreases i,
{
    let t = spec_trim(comment_text(toks[i].text@));
    if i >= 2 && chain_continues(toks, i) {
        lemma_merge_is_space_join(toks, i - 2);
        assert(chain_texts(toks, i - 2).len() >= 1);
        assert(chain_texts(toks, i).drop_last() =~= chain_texts(toks, i - 2));
    } else {
        assert(chain_first(toks, i) == i);
    }
}

/// The locator's contract for a chain of adjacent line comments: with line
/// comments allowed, it returns their trimmed contents joined by single
/// spaces.
pub proof fn lemma_locator_merges_adjacent_line_comments(toks: Seq<Tok>, start: int)
    requires
        match prev_skip_ws(toks, start) {
            Some(i) => toks[i].kind == TokKind::Comment && starts_hash(toks[i].text@) && ({
                let s = chain_first(toks, i);
                !(s >= 1 && toks[s - 1].kind == TokKind::Whitespace && chain_ws(toks[s - 1].text@))
            }),
            None => false,
        },
    ensures
        ({
            let i = prev_skip_ws(toks, start)->Some_0;
            spec_find_comment(toks, start, true) == Some(join_sp(chain_texts(toks, i)))
        }),
{
    let i = prev_skip_ws(toks, start)->Some_0;
    assert(0 <= i < toks.len());
    lemma_merge_is_space_join(toks, i);
}

} // verus!
