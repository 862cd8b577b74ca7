//! The substitution engine: executable matching and replacement, proved
//! against the specification-level semantics of patterns and templates.

use vstd::prelude::*;

use crate::formatter::Formatter;
use crate::pattern::Pattern;
use crate::pattern::Tok;
use crate::pattern::closes_at;
use crate::pattern::greedy_close;
use crate::pattern::lemma_match_at_bounds;
use crate::pattern::lemma_toks_match_bounds;
use crate::pattern::match_at;
use crate::pattern::no_newline;
use crate::pattern::toks_match;
use crate::pattern::word_at;
use crate::template::expand;
use crate::template::template_v;

verus! {

/// The text that replacing every match of `f.pattern` from position `i`
/// onward produces: characters outside matches are kept, each match is
/// replaced by the expansion of `f.template` with its capture, and the
/// scan resumes after the match (matches do not overlap).
pub open spec fn rewrite_from(f: Formatter, s: Seq<char>, i: int) -> Seq<char>
    decreases s.len() - i,
{
    if i < 0 || i >= s.len() {
        Seq::empty()
    } else {
        match match_at(f.pattern, s, i) {
            Some((mid, q, end)) => {
                let next = if i < end <= s.len() {
                    end
                } else {
                    i + 1
                };
                expand(template_v(f.template@), s.subrange(mid, q)) + rewrite_from(f, s, next)
            },
            None => seq![s[i]] + rewrite_from(f, s, i + 1),
        }
    }
}

/// The result of applying a rule to an input: every non-overlapping match
/// of its pattern replaced by the expansion of its template.
pub open spec fn apply_spec(f: Formatter, s: Seq<char>) -> Seq<char> {
    rewrite_from(f, s, 0)
}

/// Whether the word predicate holds at `i`, executably.
fn word_at_exec(s: &str, i: usize, n: usize) -> (r: bool)
    requires
        n == s@.len(),
        i <= n,
    ensures
        r == word_at(s@, i as int),
{
    if i < n {
        let c = s.get_char(i);
        ('a' <= c && c <= 'z') || ('A' <= c && c <= 'Z') || ('0' <= c && c <= '9') || c == '_'
    } else {
        false
    }
}

/// Matches the fixed tokens of `toks` at position `i`, executably.
fn toks_match_exec(toks: &Vec<Tok>, s: &str, multi_line: bool, i: usize, n: usize) -> (r: Option<
    usize,
>)
    requires
        n == s@.len(),
        i <= n,
    ensures
        match r {
            Some(j) => toks_match(toks@, s@, multi_line, i as int) == Some(j as int),
            None => toks_match(toks@, s@, multi_line, i as int) is None,
        },
{
    proof {
        assert(toks@.skip(0) =~= toks@);
    }
    let mut k: usize = 0;
    let mut j: usize = i;
    while k < toks.len()
        invariant
            k <= toks.len(),
            i <= j <= n,
            n == s@.len(),
            toks_match(toks@, s@, multi_line, i as int) == toks_match(
                toks@.skip(k as int),
                s@,
                multi_line,
                j as int,
            ),
        decreases toks.len() - k,
    {
        let ghost rest = toks@.skip(k as int);
        proof {
            assert(rest[0] == toks@[k as int]);
            assert(rest.drop_first() =~= toks@.skip(k as int + 1));
        }
        let ok: bool = match toks[k] {
            Tok::LineStart => j == 0 || (multi_line && s.get_char(j - 1) == '\n'),
            Tok::LineEnd => j == n || (multi_line && s.get_char(j) == '\n'),
            Tok::WordBoundary => {
                let before: bool = if j == 0 {
                    false
                } else {
                    word_at_exec(s, j - 1, n)
                };
                let here = word_at_exec(s, j, n);
                before != here
            },
            Tok::Lit(c) => j < n && s.get_char(j) == c,
        };
        if !ok {
            return None;
        }
        match toks[k] {
            Tok::Lit(_) => {
                j = j + 1;
            },
            _ => {},
        }
        k = k + 1;
    }
    proof {
        assert(toks@.skip(toks@.len() as int) =~= Seq::<Tok>::empty());
    }
    Some(j)
}

/// Whether `s` is free of line breaks between `a` and `b`, executably.
fn no_newline_exec(s: &str, a: usize, b: usize, n: usize) -> (r: bool)
    requires
        n == s@.len(),
        a <= b <= n,
    ensures
        r == no_newline(s@, a as int, b as int),
{
    let mut k: usize = a;
    while k < b
        invariant
            a <= k <= b <= n,
            n == s@.len(),
            forall|x: int| a <= x < k ==> s@[x] != '\n',
        decreases b - k,
    {
        if s.get_char(k) == '\n' {
            return false;
        }
        k = k + 1;
    }
    true
}

/// Finds the greedy closing position of a capture that started at `mid`,
/// executably.
fn greedy_close_exec(p: &Pattern, s: &str, mid: usize, n: usize) -> (r: Option<usize>)
    requires
        n == s@.len(),
        mid <= n,
    ensures
        match r {
            Some(q) => greedy_close(*p, s@, mid as int, n as int) == Some(q as int),
            None => greedy_close(*p, s@, mid as int, n as int) is None,
        },
{
    let mut hi: usize = n;
    while hi > mid
        invariant
            mid <= hi <= n,
            n == s@.len(),
            greedy_close(*p, s@, mid as int, n as int) == greedy_close(
                *p,
                s@,
                mid as int,
                hi as int,
            ),
        decreases hi,
    {
        let closes: bool = no_newline_exec(s, mid, hi, n) && toks_match_exec(
            &p.post,
            s,
            p.multi_line,
            hi,
            n,
        ).is_some();
        assert(closes == closes_at(*p, s@, mid as int, hi as int));
        if closes {
            return Some(hi);
        }
        hi = hi - 1;
    }
    None
}

/// Finds the match of `p` starting exactly at `i`, executably.
pub(crate) fn match_at_exec(p: &Pattern, s: &str, i: usize, n: usize) -> (r: Option<
    (usize, usize, usize),
>)
    requires
        n == s@.len(),
        i <= n,
    ensures
        match r {
            Some((mid, q, end)) => {
                &&& match_at(*p, s@, i as int) == Some((mid as int, q as int, end as int))
                &&& i <= mid < q <= end <= n
            },
            None => match_at(*p, s@, i as int) is None,
        },
{
    match toks_match_exec(&p.pre, s, p.multi_line, i, n) {
        Some(mid) => {
            proof {
                lemma_toks_match_bounds(p.pre@, s@, p.multi_line, i as int, mid as int);
            }
            match greedy_close_exec(p, s, mid, n) {
                Some(q) => {
                    proof {
                        crate::pattern::lemma_greedy_close_bounds(
                            *p,
                            s@,
                            mid as int,
                            n as int,
                            q as int,
                        );
                    }
                    match toks_match_exec(&p.post, s, p.multi_line, q, n) {
                        Some(end) => {
                            proof {
                                lemma_match_at_bounds(
                                    *p,
                                    s@,
                                    i as int,
                                    mid as int,
                                    q as int,
                                    end as int,
                                );
                            }
                            Some((mid, q, end))
                        },
                        None => {
                            proof {
                                crate::pattern::lemma_greedy_close_bounds(
                                    *p,
                                    s@,
                                    mid as int,
                                    n as int,
                                    q as int,
                                );
                            }
                            None
                        },
                    }
                },
                None => None,
            }
        },
        None => None,
    }
}

} // verus!
