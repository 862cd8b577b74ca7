//! The textual grammar of the dialect.
//!
//! A pattern string is fixed tokens, one named capture group, fixed
//! tokens.  Fixed tokens are `^`, `$`, `\b` and literal characters; the
//! group is written `(?P<name>.+)` with a non-empty name of word
//! characters.  The characters `. + * ? [ ] { } | )` and a stray `\` or
//! `(` are reserved and do not parse, so every pattern of the dialect
//! keeps its usual meaning in the common regular-expression notation it
//! is borrowed from.
//!
//! A replacement string is literal text in which `${name}` stands for the
//! capture of the group `name`; a placeholder naming any other group
//! expands to nothing, and a `$` not followed by a braced name is
//! literal.

use vstd::prelude::*;

use crate::pattern::Tok;
use crate::pattern::is_word_char;
use crate::template::Piece;
use crate::template::PieceV;
use crate::template::template_v;

verus! {

/// A character that the dialect reserves: it neither parses as a fixed
/// token nor may appear bare outside the capture group.
pub open spec fn reserved_char(c: char) -> bool {
    c == '.' || c == '+' || c == '*' || c == '?' || c == '[' || c == ']' || c == '{' || c == '}'
        || c == '|' || c == ')'
}

/// Prepends a token to the result of parsing the rest of a fixed run.
pub open spec fn cons_tok(t: Tok, rest: Option<(Seq<Tok>, int)>) -> Option<(Seq<Tok>, int)> {
    match rest {
        Some((ts, e)) => Some((seq![t] + ts, e)),
        None => None,
    }
}

/// Parses a run of fixed tokens from `i` on, stopping before a `(` or at
/// the end; returns the tokens and the stopping position.
pub open spec fn parse_fixed(s: Seq<char>, i: int) -> Option<(Seq<Tok>, int)>
    decreases s.len() - i,
{
    if i < 0 || i >= s.len() {
        Some((Seq::empty(), i))
    } else {
        let c = s[i];
        if c == '(' {
            Some((Seq::empty(), i))
        } else if c == '^' {
            cons_tok(Tok::LineStart, parse_fixed(s, i + 1))
        } else if c == '$' {
            cons_tok(Tok::LineEnd, parse_fixed(s, i + 1))
        } else if c == '\\' {
            if i + 1 < s.len() && s[i + 1] == 'b' {
                cons_tok(Tok::WordBoundary, parse_fixed(s, i + 2))
            } else {
                None
            }
        } else if reserved_char(c) {
            None
        } else {
            cons_tok(Tok::Lit(c), parse_fixed(s, i + 1))
        }
    }
}

/// Parses a group name: word characters up to a closing `>`; returns the
/// name and the position after the `>`.
pub open spec fn parse_name(s: Seq<char>, i: int) -> Option<(Seq<char>, int)>
    decreases s.len() - i,
{
    if i < 0 || i >= s.len() {
        None
    } else if s[i] == '>' {
        Some((Seq::empty(), i + 1))
    } else if is_word_char(s[i]) {
        match parse_name(s, i + 1) {
            Some((nm, e)) => Some((seq![s[i]] + nm, e)),
            None => None,
        }
    } else {
        None
    }
}

/// Parses the capture group `(?P<name>.+)` at `i`; returns the name and
/// the position after the closing parenthesis.
pub open spec fn parse_group(s: Seq<char>, i: int) -> Option<(Seq<char>, int)> {
    if 0 <= i && i + 4 <= s.len() && s[i] == '(' && s[i + 1] == '?' && s[i + 2] == 'P' && s[i + 3]
        == '<' {
        match parse_name(s, i + 4) {
            Some((nm, j)) => {
                if nm.len() > 0 && j + 3 <= s.len() && s[j] == '.' && s[j + 1] == '+' && s[j + 2]
                    == ')' {
                    Some((nm, j + 3))
                } else {
                    None
                }
            },
            None => None,
        }
    } else {
        None
    }
}

/// Parses a whole pattern string: fixed tokens, one capture group, fixed
/// tokens, nothing else.
pub open spec fn parse_pattern(s: Seq<char>) -> Option<(Seq<Tok>, Seq<char>, Seq<Tok>)> {
    match parse_fixed(s, 0) {
        Some((pre, i)) => match parse_group(s, i) {
            Some((nm, j)) => match parse_fixed(s, j) {
                Some((post, k)) => if k == s.len() {
                    Some((pre, nm, post))
                } else {
                    None
                },
                None => None,
            },
            None => None,
        },
        None => None,
    }
}

/// The position of the first `}` at `i` or later.
pub open spec fn find_brace(s: Seq<char>, i: int) -> Option<int>
    decreases s.len() - i,
{
    if i < 0 || i >= s.len() {
        None
    } else if s[i] == '}' {
        Some(i)
    } else {
        find_brace(s, i + 1)
    }
}

/// Parses a replacement string against the group name `gname`: a
/// placeholder `${gname}` becomes the capture, a placeholder with any
/// other name becomes nothing, and every other character is literal.
pub open spec fn parse_template(s: Seq<char>, gname: Seq<char>, i: int) -> Seq<PieceV>
    decreases s.len() - i,
{
    if i < 0 || i >= s.len() {
        Seq::empty()
    } else if s[i] == '$' && i + 1 < s.len() && s[i + 1] == '{' && find_brace(s, i + 2) is Some {
        let k = find_brace(s, i + 2).unwrap();
        let next = if i < k + 1 <= s.len() {
            k + 1
        } else {
            s.len() as int
        };
        let rest = parse_template(s, gname, next);
        if s.subrange(i + 2, k) == gname {
            seq![PieceV::Capture] + rest
        } else {
            rest
        }
    } else {
        seq![PieceV::Lit(seq![s[i]])] + parse_template(s, gname, i + 1)
    }
}

/// A found brace lies between the start of the search and the end of the
/// string.
pub proof fn lemma_find_brace_bounds(s: Seq<char>, i: int, k: int)
    requires
        find_brace(s, i) == Some(k),
    ensures
        i <= k < s.len(),
        s[k] == '}',
    decreases s.len() - i,
{
    if 0 <= i < s.len() && s[i] != '}' {
        lemma_find_brace_bounds(s, i + 1, k);
    }
}

/// Wraps the tokens already parsed around the outcome on the rest.
pub open spec fn fixed_ctx(acc: Seq<Tok>, rest: Option<(Seq<Tok>, int)>) -> Option<
    (Seq<Tok>, int),
> {
    match rest {
        Some((ts, e)) => Some((acc + ts, e)),
        None => None,
    }
}

proof fn lemma_fixed_ctx_cons(acc: Seq<Tok>, t: Tok, rest: Option<(Seq<Tok>, int)>)
    ensures
        fixed_ctx(acc, cons_tok(t, rest)) == fixed_ctx(acc.push(t), rest),
{
    match rest {
        Some((ts, e)) => {
            assert(acc + (seq![t] + ts) =~= acc.push(t) + ts);
        },
        None => {},
    }
}

/// Whether `c` is a word character, executably.
fn is_word_char_exec(c: char) -> (r: bool)
    ensures
        r == is_word_char(c),
{
    ('a' <= c && c <= 'z') || ('A' <= c && c <= 'Z') || ('0' <= c && c <= '9') || c == '_'
}

/// Parses a run of fixed tokens, executably.
fn parse_fixed_exec(s: &str, start: usize, n: usize) -> (r: Option<(Vec<Tok>, usize)>)
    requires
        n == s@.len(),
        start <= n,
    ensures
        match r {
            Some((toks, e)) => parse_fixed(s@, start as int) == Some((toks@, e as int)) && start
                <= e <= n,
            None => parse_fixed(s@, start as int) is None,
        },
{
    let mut acc: Vec<Tok> = Vec::new();
    let mut i: usize = start;
    while i < n
        invariant
            start <= i <= n,
            n == s@.len(),
            parse_fixed(s@, start as int) == fixed_ctx(acc@, parse_fixed(s@, i as int)),
        decreases n - i,
    {
        let c = s.get_char(i);
        if c == '(' {
            proof {
                assert(acc@ + Seq::<Tok>::empty() =~= acc@);
            }
            return Some((acc, i));
        } else if c == '^' {
            proof {
                lemma_fixed_ctx_cons(acc@, Tok::LineStart, parse_fixed(s@, i as int + 1));
            }
            acc.push(Tok::LineStart);
            i = i + 1;
        } else if c == '$' {
            proof {
                lemma_fixed_ctx_cons(acc@, Tok::LineEnd, parse_fixed(s@, i as int + 1));
            }
            acc.push(Tok::LineEnd);
            i = i + 1;
        } else if c == '\\' {
            if i + 1 < n && s.get_char(i + 1) == 'b' {
                proof {
                    lemma_fixed_ctx_cons(acc@, Tok::WordBoundary, parse_fixed(s@, i as int + 2));
                }
                acc.push(Tok::WordBoundary);
                i = i + 2;
            } else {
                return None;
            }
        } else if c == '.' || c == '+' || c == '*' || c == '?' || c == '[' || c == ']' || c == '{'
            || c == '}' || c == '|' || c == ')' {
            return None;
        } else {
            proof {
                lemma_fixed_ctx_cons(acc@, Tok::Lit(c), parse_fixed(s@, i as int + 1));
            }
            acc.push(Tok::Lit(c));
            i = i + 1;
        }
    }
    proof {
        assert(acc@ + Seq::<Tok>::empty() =~= acc@);
    }
    Some((acc, i))
}

/// Wraps the name characters already parsed around the outcome on the
/// rest.
pub open spec fn name_ctx(acc: Seq<char>, rest: Option<(Seq<char>, int)>) -> Option<
    (Seq<char>, int),
> {
    match rest {
        Some((nm, e)) => Some((acc + nm, e)),
        None => None,
    }
}

proof fn lemma_name_ctx_cons(acc: Seq<char>, c: char, rest: Option<(Seq<char>, int)>)
    ensures
        name_ctx(acc, name_ctx(seq![c], rest)) == name_ctx(acc.push(c), rest),
{
    match rest {
        Some((nm, e)) => {
            assert(acc + (seq![c] + nm) =~= acc.push(c) + nm);
        },
        None => {},
    }
}

/// Parses a group name up to `>`, executably.
fn parse_name_exec(s: &str, start: usize, n: usize) -> (r: Option<(Vec<char>, usize)>)
    requires
        n == s@.len(),
        start <= n,
    ensures
        match r {
            Some((nm, e)) => parse_name(s@, start as int) == Some((nm@, e as int)) && start < e
                <= n,
            None => parse_name(s@, start as int) is None,
        },
{
    let mut acc: Vec<char> = Vec::new();
    let mut i: usize = start;
    while i < n
        invariant
            start <= i <= n,
            n == s@.len(),
            parse_name(s@, start as int) == name_ctx(acc@, parse_name(s@, i as int)),
        decreases n - i,
    {
        let c = s.get_char(i);
        if c == '>' {
            proof {
                assert(acc@ + Seq::<char>::empty() =~= acc@);
            }
            return Some((acc, i + 1));
        } else if is_word_char_exec(c) {
            proof {
                assert(name_ctx(seq![c], parse_name(s@, i as int + 1)) == parse_name(
                    s@,
                    i as int,
                ));
                lemma_name_ctx_cons(acc@, c, parse_name(s@, i as int + 1));
            }
            acc.push(c);
            i = i + 1;
        } else {
            return None;
        }
    }
    None
}

/// Parses the capture group `(?P<name>.+)`, executably.
fn parse_group_exec(s: &str, i: usize, n: usize) -> (r: Option<(Vec<char>, usize)>)
    requires
        n == s@.len(),
        i <= n,
    ensures
        match r {
            Some((nm, e)) => parse_group(s@, i as int) == Some((nm@, e as int)) && e <= n,
            None => parse_group(s@, i as int) is None,
        },
{
    if n >= 4 && i <= n - 4 && s.get_char(i) == '(' && s.get_char(i + 1) == '?' && s.get_char(
        i + 2,
    ) == 'P' && s.get_char(i + 3) == '<' {
        match parse_name_exec(s, i + 4, n) {
            Some((nm, j)) => {
                if nm.len() > 0 && n >= 3 && j <= n - 3 && s.get_char(j) == '.' && s.get_char(
                    j + 1,
                ) == '+' && s.get_char(j + 2) == ')' {
                    Some((nm, j + 3))
                } else {
                    None
                }
            },
            None => None,
        }
    } else {
        None
    }
}

/// Parses a whole pattern string, executably.
pub(crate) fn parse_pattern_exec(s: &str) -> (r: Option<(Vec<Tok>, Vec<char>, Vec<Tok>)>)
    ensures
        match r {
            Some((pre, nm, post)) => parse_pattern(s@) == Some((pre@, nm@, post@)),
            None => parse_pattern(s@) is None,
        },
{
    let n = s.unicode_len();
    match parse_fixed_exec(s, 0, n) {
        Some((pre, i)) => match parse_group_exec(s, i, n) {
            Some((nm, j)) => match parse_fixed_exec(s, j, n) {
                Some((post, k)) => if k == n {
                    Some((pre, nm, post))
                } else {
                    None
                },
                None => None,
            },
            None => None,
        },
        None => None,
    }
}

/// Finds the first `}` at `start` or later, executably.
fn find_brace_exec(s: &str, start: usize, n: usize) -> (r: Option<usize>)
    requires
        n == s@.len(),
        start <= n,
    ensures
        match r {
            Some(k) => find_brace(s@, start as int) == Some(k as int) && start <= k < n,
            None => find_brace(s@, start as int) is None,
        },
{
    let mut i: usize = start;
    while i < n
        invariant
            start <= i <= n,
            n == s@.len(),
            find_brace(s@, start as int) == find_brace(s@, i as int),
        decreases n - i,
    {
        if s.get_char(i) == '}' {
            return Some(i);
        }
        i = i + 1;
    }
    None
}

/// Whether `s[a .. b]` equals the group name, executably.
fn range_eq_name(s: &str, a: usize, b: usize, gname: &Vec<char>, n: usize) -> (r: bool)
    requires
        n == s@.len(),
        a <= b <= n,
    ensures
        r == (s@.subrange(a as int, b as int) == gname@),
{
    if b - a != gname.len() {
        return false;
    }
    let mut j: usize = 0;
    while j < gname.len()
        invariant
            j <= gname.len(),
            gname@.len() == b - a,
            a <= b <= n,
            n == s@.len(),
            forall|x: int| 0 <= x < j ==> s@[a + x] == gname@[x],
        decreases gname.len() - j,
    {
        if s.get_char(a + j) != gname[j] {
            assert(s@.subrange(a as int, b as int)[j as int] != gname@[j as int]);
            return false;
        }
        j = j + 1;
    }
    proof {
        assert(s@.subrange(a as int, b as int) =~= gname@);
    }
    true
}

/// Parses a replacement string against the group name, executably.
pub(crate) fn parse_template_exec(s: &str, gname: &Vec<char>) -> (t: Vec<Piece>)
    ensures
        template_v(t@) == parse_template(s@, gname@, 0),
{
    let n = s.unicode_len();
    let mut acc: Vec<Piece> = Vec::new();
    let mut i: usize = 0;
    while i < n
        invariant
            i <= n,
            n == s@.len(),
            parse_template(s@, gname@, 0) == template_v(acc@) + parse_template(
                s@,
                gname@,
                i as int,
            ),
        decreases n - i,
    {
        let ghost prev = acc@;
        let c = s.get_char(i);
        let mut placeholder: bool = false;
        if c == '$' && i + 1 < n && s.get_char(i + 1) == '{' {
            match find_brace_exec(s, i + 2, n) {
                Some(k) => {
                    proof {
                        lemma_find_brace_bounds(s@, i as int + 2, k as int);
                    }
                    if range_eq_name(s, i + 2, k, gname, n) {
                        acc.push(Piece::Capture);
                        proof {
                            assert(template_v(acc@) =~= template_v(prev) + seq![PieceV::Capture]);
                            assert(template_v(prev) + (seq![PieceV::Capture] + parse_template(
                                s@,
                                gname@,
                                k as int + 1,
                            )) =~= template_v(acc@) + parse_template(s@, gname@, k as int + 1));
                        }
                    }
                    i = k + 1;
                    placeholder = true;
                },
                None => {},
            }
        }
        if !placeholder {
            acc.push(Piece::Lit(String::from_str(s.substring_char(i, i + 1))));
            proof {
                assert(s@.subrange(i as int, i as int + 1) =~= seq![s@[i as int]]);
                assert(template_v(acc@) =~= template_v(prev) + seq![
                    PieceV::Lit(seq![s@[i as int]]),
                ]);
                assert(template_v(prev) + (seq![PieceV::Lit(seq![s@[i as int]])] + parse_template(
                    s@,
                    gname@,
                    i as int + 1,
                )) =~= template_v(acc@) + parse_template(s@, gname@, i as int + 1));
            }
            i = i + 1;
        }
    }
    proof {
        assert(template_v(acc@) + Seq::<PieceV>::empty() =~= template_v(acc@));
    }
    acc
}

} // verus!
