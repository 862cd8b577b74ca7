//! Patterns of the substitution dialect and their matching semantics.
//!
//! A pattern is a run of fixed-width tokens, one named capture group whose
//! body is `.+` (one or more characters other than a line break, greedy),
//! and a second run of fixed-width tokens.  The fixed-width tokens are the
//! line anchors `^` and `$`, the word-boundary assertion `\b`, and literal
//! characters.

use vstd::prelude::*;

verus! {

/// One fixed-width token of a pattern: an anchor, a word-boundary
/// assertion, or a literal character.
#[derive(Clone, Copy, PartialEq, Eq, Structural, Debug)]
pub enum Tok {
    /// `^`: start of a line (line-anchored mode) or of the whole input.
    LineStart,
    /// `$`: end of a line (line-anchored mode) or of the whole input.
    LineEnd,
    /// `\b`: a word boundary.
    WordBoundary,
    /// A literal character that must occur verbatim.
    Lit(char),
}

/// A compiled pattern: fixed tokens, then one named capture group `.+`,
/// then fixed tokens.  `multi_line` selects whether the anchors bind to
/// each line or to the whole input.
pub struct Pattern {
    pub pre: Vec<Tok>,
    pub group_name: Vec<char>,
    pub post: Vec<Tok>,
    pub multi_line: bool,
}

/// A word character: an ASCII letter, an ASCII digit, or an underscore.
pub open spec fn is_word_char(c: char) -> bool {
    (('a' as u32) <= (c as u32) && (c as u32) <= ('z' as u32))
        || (('A' as u32) <= (c as u32) && (c as u32) <= ('Z' as u32))
        || (('0' as u32) <= (c as u32) && (c as u32) <= ('9' as u32))
        || c == '_'
}

/// `^` holds at `i`: at the start of the input or, in line-anchored mode,
/// right after a line break.
pub open spec fn line_start(s: Seq<char>, multi_line: bool, i: int) -> bool {
    i == 0 || (multi_line && 0 < i <= s.len() && s[i - 1] == '\n')
}

/// `$` holds at `i`: at the end of the input or, in line-anchored mode,
/// right before a line break.
pub open spec fn line_end(s: Seq<char>, multi_line: bool, i: int) -> bool {
    i == s.len() || (multi_line && 0 <= i < s.len() && s[i] == '\n')
}

/// The character at `i` exists and is a word character.
pub open spec fn word_at(s: Seq<char>, i: int) -> bool {
    0 <= i < s.len() && is_word_char(s[i])
}

/// `\b` holds at `i`: exactly one side of the position carries a word
/// character (the edges of the input count as non-word).
pub open spec fn word_boundary(s: Seq<char>, i: int) -> bool {
    word_at(s, i - 1) != word_at(s, i)
}

/// No line break occurs in `s` at the positions `a <= k < b`.
pub open spec fn no_newline(s: Seq<char>, a: int, b: int) -> bool {
    forall|k: int| a <= k < b ==> s[k] != '\n'
}

/// Matches the fixed tokens `toks` against `s` starting at `i`; returns
/// the position after the consumed characters, or `None` on a mismatch.
pub open spec fn toks_match(toks: Seq<Tok>, s: Seq<char>, multi_line: bool, i: int) -> Option<int>
    decreases toks.len(),
{
    if toks.len() == 0 {
        Some(i)
    } else {
        match toks[0] {
            Tok::LineStart => if line_start(s, multi_line, i) {
                toks_match(toks.drop_first(), s, multi_line, i)
            } else {
                None
            },
            Tok::LineEnd => if line_end(s, multi_line, i) {
                toks_match(toks.drop_first(), s, multi_line, i)
            } else {
                None
            },
            Tok::WordBoundary => if word_boundary(s, i) {
                toks_match(toks.drop_first(), s, multi_line, i)
            } else {
                None
            },
            Tok::Lit(c) => if 0 <= i < s.len() && s[i] == c {
                toks_match(toks.drop_first(), s, multi_line, i + 1)
            } else {
                None
            },
        }
    }
}

/// The capture that started at `mid` can close at `q`: the group body took
/// at least one character, none of them a line break, and the trailing
/// tokens match from `q` on.
pub open spec fn closes_at(p: Pattern, s: Seq<char>, mid: int, q: int) -> bool {
    mid < q <= s.len() && no_newline(s, mid, q)
        && toks_match(p.post@, s, p.multi_line, q) is Some
}

/// The largest closing position of a capture that started at `mid`, among
/// positions at most `hi` (greedy semantics of `.+`).
pub open spec fn greedy_close(p: Pattern, s: Seq<char>, mid: int, hi: int) -> Option<int>
    decreases hi - mid,
{
    if hi <= mid {
        None
    } else if closes_at(p, s, mid, hi) {
        Some(hi)
    } else {
        greedy_close(p, s, mid, hi - 1)
    }
}

/// The match of `p` that starts at `i`, if any: `Some((mid, q, end))`
/// where the capture is `s[mid .. q]` (chosen greedily) and `end` is the
/// position after the whole match.
pub open spec fn match_at(p: Pattern, s: Seq<char>, i: int) -> Option<(int, int, int)> {
    match toks_match(p.pre@, s, p.multi_line, i) {
        Some(mid) => match greedy_close(p, s, mid, s.len() as int) {
            Some(q) => match toks_match(p.post@, s, p.multi_line, q) {
                Some(end) => Some((mid, q, end)),
                None => None,
            },
            None => None,
        },
        None => None,
    }
}

/// Fixed tokens only move the position forward, and never past the end.
pub proof fn lemma_toks_match_bounds(toks: Seq<Tok>, s: Seq<char>, multi_line: bool, i: int, j: int)
    requires
        0 <= i <= s.len(),
        toks_match(toks, s, multi_line, i) == Some(j),
    ensures
        i <= j <= s.len(),
    decreases toks.len(),
{
    if toks.len() > 0 {
        match toks[0] {
            Tok::Lit(c) => {
                lemma_toks_match_bounds(toks.drop_first(), s, multi_line, i + 1, j);
            },
            _ => {
                lemma_toks_match_bounds(toks.drop_first(), s, multi_line, i, j);
            },
        }
    }
}

/// A greedy close lies strictly between the capture start and `hi`.
pub proof fn lemma_greedy_close_bounds(p: Pattern, s: Seq<char>, mid: int, hi: int, q: int)
    requires
        greedy_close(p, s, mid, hi) == Some(q),
    ensures
        mid < q <= hi,
        closes_at(p, s, mid, q),
    decreases hi - mid,
{
    if hi > mid && !closes_at(p, s, mid, hi) {
        lemma_greedy_close_bounds(p, s, mid, hi - 1, q);
    }
}

/// The positions of a match are ordered and in range, and the match is
/// never empty.
pub proof fn lemma_match_at_bounds(p: Pattern, s: Seq<char>, i: int, mid: int, q: int, end: int)
    requires
        0 <= i <= s.len(),
        match_at(p, s, i) == Some((mid, q, end)),
    ensures
        i <= mid < q <= end <= s.len(),
{
    lemma_toks_match_bounds(p.pre@, s, p.multi_line, i, mid);
    lemma_greedy_close_bounds(p, s, mid, s.len() as int, q);
    lemma_toks_match_bounds(p.post@, s, p.multi_line, q, end);
}

} // verus!
