//! Laws of the substitution engine: a rule without a match returns its
//! input, and the two heading rules commute.

use vstd::prelude::*;

use crate::engine::apply_spec;
use crate::engine::rewrite_from;
use crate::formatter::Formatter;
use crate::formatter::heading_pattern;
use crate::formatter::heading_pre;
use crate::formatter::tagged_template;
use crate::pattern::Pattern;
use crate::pattern::Tok;
use crate::pattern::closes_at;
use crate::pattern::greedy_close;
use crate::pattern::line_end;
use crate::pattern::line_start;
use crate::pattern::match_at;
use crate::pattern::no_newline;
use crate::pattern::toks_match;
use crate::template::expand;
use crate::template::template_v;

verus! {

proof fn lemma_no_match_from(f: Formatter, s: Seq<char>, i: int)
    requires
        0 <= i <= s.len(),
        forall|j: int| i <= j < s.len() ==> #[trigger] match_at(f.pattern, s, j) is None,
    ensures
        rewrite_from(f, s, i) == s.subrange(i, s.len() as int),
    decreases s.len() - i,
{
    if i < s.len() {
        lemma_no_match_from(f, s, i + 1);
        assert(seq![s[i]] + s.subrange(i + 1, s.len() as int) =~= s.subrange(
            i,
            s.len() as int,
        ));
    } else {
        assert(s.subrange(i, s.len() as int) =~= Seq::<char>::empty());
    }
}

/// Stability on no-match input: when a rule's pattern matches nowhere in
/// the input, applying the rule returns the input unchanged — for every
/// rule and every input.
pub proof fn lemma_no_match_returns_input(f: Formatter, s: Seq<char>)
    requires
        forall|j: int| 0 <= j < s.len() ==> #[trigger] match_at(f.pattern, s, j) is None,
    ensures
        apply_spec(f, s) == s,
{
    lemma_no_match_from(f, s, 0);
    assert(s.subrange(0, s.len() as int) =~= s);
}

proof fn lemma_no_match_span(f: Formatter, s: Seq<char>, i: int, k: int)
    requires
        0 <= i <= k <= s.len(),
        forall|j: int| i <= j < k ==> #[trigger] match_at(f.pattern, s, j) is None,
    ensures
        rewrite_from(f, s, i) == s.subrange(i, k) + rewrite_from(f, s, k),
    decreases k - i,
{
    if i < k {
        lemma_no_match_span(f, s, i + 1, k);
        assert(seq![s[i]] + (s.subrange(i + 1, k) + rewrite_from(f, s, k)) =~= s.subrange(i, k)
            + rewrite_from(f, s, k));
    } else {
        assert(s.subrange(i, k) + rewrite_from(f, s, k) =~= rewrite_from(f, s, i));
    }
}

/// The position of the first line break at `i` or later, or the length
/// of the input when the rest of it has none.
pub open spec fn first_nl(s: Seq<char>, i: int) -> int
    decreases s.len() - i,
{
    if !(0 <= i < s.len()) {
        s.len() as int
    } else if s[i] == '\n' {
        i
    } else {
        first_nl(s, i + 1)
    }
}

proof fn lemma_first_nl_bounds(s: Seq<char>, i: int)
    requires
        0 <= i <= s.len(),
    ensures
        i <= first_nl(s, i) <= s.len(),
        no_newline(s, i, first_nl(s, i)),
        first_nl(s, i) < s.len() ==> s[first_nl(s, i)] == '\n',
    decreases s.len() - i,
{
    if i < s.len() && s[i] != '\n' {
        lemma_first_nl_bounds(s, i + 1);
    }
}

proof fn lemma_first_nl_determined(s: Seq<char>, i: int, e: int)
    requires
        0 <= i <= e <= s.len(),
        no_newline(s, i, e),
        e < s.len() ==> s[e] == '\n',
    ensures
        first_nl(s, i) == e,
    decreases e - i,
{
    if i < e {
        lemma_first_nl_determined(s, i + 1, e);
    }
}

/// The condition under which a heading rule of the given marker depth
/// converts a line that is free of line breaks: the marker at the start,
/// then at least one character.
pub open spec fn heading_line_matches(s: Seq<char>, hashes: int) -> bool {
    if hashes == 1 {
        s.len() > 2 && s[0] == '#' && s[1] == ' '
    } else {
        s.len() > 3 && s[0] == '#' && s[1] == '#' && s[2] == ' '
    }
}

proof fn lemma_h1_pre_match(s: Seq<char>, i: int)
    requires
        0 <= i <= s.len(),
    ensures
        toks_match(heading_pre(1) + seq![Tok::Lit(' ')], s, true, i) == if line_start(s, true, i)
            && i + 2 <= s.len() && s[i] == '#' && s[i + 1] == ' ' {
            Some(i + 2)
        } else {
            None::<int>
        },
{
    let t = heading_pre(1) + seq![Tok::Lit(' ')];
    let d1 = seq![Tok::Lit('#'), Tok::Lit(' ')];
    let d2 = seq![Tok::Lit(' ')];
    assert(heading_pre(0) =~= seq![Tok::LineStart]);
    assert(t =~= seq![Tok::LineStart, Tok::Lit('#'), Tok::Lit(' ')]);
    assert(t.drop_first() =~= d1);
    assert(d1.drop_first() =~= d2);
    assert(d2.drop_first() =~= Seq::<Tok>::empty());
    if line_start(s, true, i) && i + 2 <= s.len() && s[i] == '#' && s[i + 1] == ' ' {
        assert(toks_match(Seq::<Tok>::empty(), s, true, i + 2) == Some(i + 2));
        assert(toks_match(d2, s, true, i + 1) == Some(i + 2));
        assert(toks_match(d1, s, true, i) == Some(i + 2));
    }
}

proof fn lemma_h2_pre_match(s: Seq<char>, i: int)
    requires
        0 <= i <= s.len(),
    ensures
        toks_match(heading_pre(2) + seq![Tok::Lit(' ')], s, true, i) == if line_start(s, true, i)
            && i + 3 <= s.len() && s[i] == '#' && s[i + 1] == '#' && s[i + 2] == ' ' {
            Some(i + 3)
        } else {
            None::<int>
        },
{
    let t = heading_pre(2) + seq![Tok::Lit(' ')];
    let d1 = seq![Tok::Lit('#'), Tok::Lit('#'), Tok::Lit(' ')];
    let d2 = seq![Tok::Lit('#'), Tok::Lit(' ')];
    let d3 = seq![Tok::Lit(' ')];
    assert(heading_pre(0) =~= seq![Tok::LineStart]);
    assert(heading_pre(1) =~= seq![Tok::LineStart, Tok::Lit('#')]);
    assert(t =~= seq![Tok::LineStart, Tok::Lit('#'), Tok::Lit('#'), Tok::Lit(' ')]);
    assert(t.drop_first() =~= d1);
    assert(d1.drop_first() =~= d2);
    assert(d2.drop_first() =~= d3);
    assert(d3.drop_first() =~= Seq::<Tok>::empty());
    if line_start(s, true, i) && i + 3 <= s.len() && s[i] == '#' && s[i + 1] == '#' && s[i + 2]
        == ' ' {
        assert(toks_match(Seq::<Tok>::empty(), s, true, i + 3) == Some(i + 3));
        assert(toks_match(d3, s, true, i + 2) == Some(i + 3));
        assert(toks_match(d2, s, true, i + 1) == Some(i + 3));
        assert(toks_match(d1, s, true, i) == Some(i + 3));
    }
}

proof fn lemma_greedy_scan_down(p: Pattern, s: Seq<char>, mid: int, e: int, hi: int)
    requires
        0 <= mid <= e <= hi <= s.len(),
        e < s.len() ==> s[e] == '\n',
    ensures
        greedy_close(p, s, mid, hi) == greedy_close(p, s, mid, e),
    decreases hi - e,
{
    if hi > e {
        assert(!no_newline(s, mid, hi)) by {
            assert(mid <= e < hi && s[e] == '\n');
        }
        assert(!closes_at(p, s, mid, hi));
        lemma_greedy_scan_down(p, s, mid, e, hi - 1);
    }
}

/// The greedy close of a capture that started at `mid` is the end of its
/// line: the first line break after `mid`, or the end of the input.
proof fn lemma_heading_close(p: Pattern, s: Seq<char>, mid: int, e: int)
    requires
        p.post@ == seq![Tok::LineEnd],
        p.multi_line == true,
        0 <= mid <= e <= s.len(),
        no_newline(s, mid, e),
        e < s.len() ==> s[e] == '\n',
    ensures
        greedy_close(p, s, mid, s.len() as int) == if mid < e {
            Some(e)
        } else {
            None::<int>
        },
        toks_match(p.post@, s, true, e) == Some(e),
{
    assert(seq![Tok::LineEnd].drop_first() =~= Seq::<Tok>::empty());
    assert(line_end(s, true, e));
    assert(toks_match(Seq::<Tok>::empty(), s, true, e) == Some(e));
    assert(toks_match(seq![Tok::LineEnd], s, true, e) == Some(e));
    lemma_greedy_scan_down(p, s, mid, e, s.len() as int);
    if mid < e {
        assert(closes_at(p, s, mid, e));
    }
}

/// The condition under which a heading rule converts the line that
/// starts at `i`: the marker right at the line start, then at least one
/// more character before the line ends.
spec fn line_matches_at(s: Seq<char>, i: int, hashes: int) -> bool {
    first_nl(s, i) > i + hashes + 1 && s[i] == '#' && (hashes == 2 ==> s[i + 1] == '#') && s[i
        + hashes] == ' '
}

/// Within the line that starts at `i`, a heading rule can match only at
/// `i` itself, and does so exactly when the marker opens the line.
proof fn lemma_heading_match_in_line(p: Pattern, s: Seq<char>, hashes: int, i: int, j: int)
    requires
        heading_pattern(p, hashes),
        1 <= hashes <= 2,
        0 <= i <= s.len(),
        line_start(s, true, i),
        i <= j <= first_nl(s, i),
        j < s.len(),
    ensures
        j > i ==> match_at(p, s, j) is None,
        j == i ==> match_at(p, s, i) == if line_matches_at(s, i, hashes) {
            Some((i + hashes + 1, first_nl(s, i), first_nl(s, i)))
        } else {
            None::<(int, int, int)>
        },
{
    let e = first_nl(s, i);
    lemma_first_nl_bounds(s, i);
    if hashes == 1 {
        lemma_h1_pre_match(s, j);
    } else {
        lemma_h2_pre_match(s, j);
    }
    if j > i {
        assert(s[j - 1] != '\n');
        assert(!line_start(s, true, j));
    } else {
        if line_matches_at(s, i, hashes) {
            assert(toks_match(p.pre@, s, true, i) == Some(i + hashes + 1));
            lemma_heading_close(p, s, i + hashes + 1, e);
        } else {
            if toks_match(p.pre@, s, true, i) is Some {
                assert(toks_match(p.pre@, s, true, i) == Some(i + hashes + 1));
                assert(e == i + hashes + 1) by {
                    assert(s[i] != '\n' && s[i + hashes] != '\n');
                    if hashes == 2 {
                        assert(s[i + 1] != '\n');
                    }
                }
                lemma_heading_close(p, s, i + hashes + 1, e);
            }
        }
    }
}

/// What a heading rule makes of one line `x`: a line opened by the
/// marker is wrapped between the template's literal texts with the
/// marker removed; any other line is kept.
spec fn apply_line(x: Seq<char>, hashes: int, l: Seq<char>, r: Seq<char>) -> Seq<char> {
    if heading_line_matches(x, hashes) {
        l + x.subrange(hashes + 1, x.len() as int) + r
    } else {
        x
    }
}

/// One step of a heading rule over the line that starts at `i`: the
/// rewrite of the rest of the input is the rewritten line, then the line
/// break, then the rewrite of what follows it.
proof fn lemma_heading_line_step(
    f: Formatter,
    s: Seq<char>,
    hashes: int,
    l: Seq<char>,
    r: Seq<char>,
    i: int,
)
    requires
        heading_pattern(f.pattern, hashes),
        1 <= hashes <= 2,
        tagged_template(f.template@, l, r),
        0 <= i <= s.len(),
        line_start(s, true, i),
    ensures
        ({
            let e = first_nl(s, i);
            rewrite_from(f, s, i) == apply_line(s.subrange(i, e), hashes, l, r) + (if e < s.len() {
                seq!['\n'] + rewrite_from(f, s, e + 1)
            } else {
                Seq::<char>::empty()
            })
        }),
{
    let e = first_nl(s, i);
    lemma_first_nl_bounds(s, i);
    let x = s.subrange(i, e);
    assert forall|j: int| i < j <= e && j < s.len() implies #[trigger] match_at(f.pattern, s, j)
        is None by {
        lemma_heading_match_in_line(f.pattern, s, hashes, i, j);
    }
    if i == s.len() {
        assert(x =~= Seq::<char>::empty());
        assert(apply_line(x, hashes, l, r) + Seq::<char>::empty() =~= rewrite_from(f, s, i));
    } else {
        lemma_heading_match_in_line(f.pattern, s, hashes, i, i);
        assert(heading_line_matches(x, hashes) == line_matches_at(s, i, hashes)) by {
            if x.len() > hashes + 1 {
                assert(x[0] == s[i]);
                assert(x[1] == s[i + 1]);
                assert(x[hashes] == s[i + hashes]);
            }
        }
        if line_matches_at(s, i, hashes) {
            let mid = i + hashes + 1;
            let cap = s.subrange(mid, e);
            assert(rewrite_from(f, s, i) == expand(template_v(f.template@), cap) + rewrite_from(
                f,
                s,
                e,
            ));
            assert(expand(template_v(f.template@), cap) == l + cap + r);
            assert(cap =~= x.subrange(hashes + 1, x.len() as int));
            assert(apply_line(x, hashes, l, r) == l + cap + r);
            if e < s.len() {
                assert(match_at(f.pattern, s, e) is None);
                assert(rewrite_from(f, s, e) == seq![s[e]] + rewrite_from(f, s, e + 1));
                assert(seq![s[e]] =~= seq!['\n']);
            } else {
                assert(rewrite_from(f, s, e) =~= Seq::<char>::empty());
            }
        } else {
            if e < s.len() {
                lemma_no_match_span(f, s, i, e + 1);
                assert(s.subrange(i, e + 1) =~= x + seq!['\n']);
                assert((x + seq!['\n']) + rewrite_from(f, s, e + 1) =~= x + (seq!['\n']
                    + rewrite_from(f, s, e + 1)));
            } else {
                lemma_no_match_span(f, s, i, e);
                assert(rewrite_from(f, s, e) =~= Seq::<char>::empty());
                assert(x + Seq::<char>::empty() =~= x);
            }
        }
    }
}

/// At a line start, rewriting the rest of the input in place equals
/// applying the rule to the rest of the input taken by itself.
proof fn lemma_heading_suffix(
    f: Formatter,
    s: Seq<char>,
    hashes: int,
    l: Seq<char>,
    r: Seq<char>,
    i: int,
)
    requires
        heading_pattern(f.pattern, hashes),
        1 <= hashes <= 2,
        tagged_template(f.template@, l, r),
        0 <= i <= s.len(),
        line_start(s, true, i),
    ensures
        rewrite_from(f, s, i) == apply_spec(f, s.subrange(i, s.len() as int)),
    decreases s.len() - i,
{
    let e = first_nl(s, i);
    lemma_first_nl_bounds(s, i);
    let y = s.subrange(i, s.len() as int);
    lemma_heading_line_step(f, s, hashes, l, r, i);
    lemma_heading_line_step(f, y, hashes, l, r, 0);
    assert(no_newline(y, 0, e - i)) by {
        assert forall|k: int| 0 <= k < e - i implies y[k] != '\n' by {
            assert(y[k] == s[i + k]);
        }
    }
    if e < s.len() {
        assert(y[e - i] == s[e]);
    }
    lemma_first_nl_determined(y, 0, e - i);
    assert(y.subrange(0, e - i) =~= s.subrange(i, e));
    if e < s.len() {
        lemma_heading_suffix(f, s, hashes, l, r, e + 1);
        lemma_heading_suffix(f, y, hashes, l, r, e - i + 1);
        assert(y.subrange(e - i + 1, y.len() as int) =~= s.subrange(e + 1, s.len() as int));
    } else {
        assert(y.subrange(0, e - i) =~= y);
    }
}

/// A heading rule sends a line that is free of line breaks to a line
/// that is free of line breaks, provided the template's literal texts
/// are.
proof fn lemma_apply_line_no_newline(x: Seq<char>, hashes: int, l: Seq<char>, r: Seq<char>)
    requires
        1 <= hashes <= 2,
        no_newline(x, 0, x.len() as int),
        no_newline(l, 0, l.len() as int),
        no_newline(r, 0, r.len() as int),
    ensures
        ({
            let o = apply_line(x, hashes, l, r);
            no_newline(o, 0, o.len() as int)
        }),
{
    let o = apply_line(x, hashes, l, r);
    if heading_line_matches(x, hashes) {
        let cap = x.subrange(hashes + 1, x.len() as int);
        assert forall|k: int| 0 <= k < o.len() implies o[k] != '\n' by {
            if k < l.len() {
                assert(o[k] == l[k]);
            } else if k < l.len() + cap.len() {
                assert(o[k] == x[hashes + 1 + (k - l.len())]);
            } else {
                assert(o[k] == r[k - l.len() - cap.len()]);
            }
        }
    }
}

/// On one line, the heading-1 and heading-2 rules convert disjoint
/// inputs, and neither converts the other's output: the per-line
/// transforms commute.
proof fn lemma_apply_line_commute(
    x: Seq<char>,
    l1: Seq<char>,
    r1: Seq<char>,
    l2: Seq<char>,
    r2: Seq<char>,
)
    requires
        l1.len() > 0 && l1[0] != '#',
        l2.len() > 0 && l2[0] != '#',
    ensures
        apply_line(apply_line(x, 1, l1, r1), 2, l2, r2) == apply_line(
            apply_line(x, 2, l2, r2),
            1,
            l1,
            r1,
        ),
{
    if heading_line_matches(x, 1) {
        let o = l1 + x.subrange(2, x.len() as int) + r1;
        assert(o[0] == l1[0]);
        assert(!heading_line_matches(x, 2));
        assert(!heading_line_matches(o, 2));
    } else if heading_line_matches(x, 2) {
        let o = l2 + x.subrange(3, x.len() as int) + r2;
        assert(o[0] == l2[0]);
        assert(!heading_line_matches(o, 1));
    }
}

/// What a heading rule does to an input free of line breaks: an input
/// opened by the marker is wrapped between the template's literal texts
/// with the marker removed; any other input is returned unchanged.
pub proof fn lemma_heading_apply_line(
    f: Formatter,
    s: Seq<char>,
    hashes: int,
    left: Seq<char>,
    right: Seq<char>,
)
    requires
        heading_pattern(f.pattern, hashes),
        1 <= hashes <= 2,
        tagged_template(f.template@, left, right),
        no_newline(s, 0, s.len() as int),
    ensures
        heading_line_matches(s, hashes) ==> apply_spec(f, s) == left + s.subrange(
            hashes + 1,
            s.len() as int,
        ) + right,
        !heading_line_matches(s, hashes) ==> apply_spec(f, s) == s,
{
    lemma_first_nl_determined(s, 0, s.len() as int);
    lemma_heading_line_step(f, s, hashes, left, right, 0);
    assert(s.subrange(0, s.len() as int) =~= s);
    assert(apply_line(s, hashes, left, right) + Seq::<char>::empty() =~= apply_line(
        s,
        hashes,
        left,
        right,
    ));
}

/// Idempotence of non-interfering rules: the heading-1 and heading-2
/// rules match disjoint line sets, and applying them in either order to
/// the same input yields the same final result, for every input.  The
/// hypotheses on the templates' literal texts — non-empty, not opening
/// with `#`, free of line breaks — hold of the preset tags
/// `<h1>`/`</h1>` and `<h2>`/`</h2>`.
pub proof fn lemma_heading_rules_commute(
    f1: Formatter,
    f2: Formatter,
    s: Seq<char>,
    l1: Seq<char>,
    r1: Seq<char>,
    l2: Seq<char>,
    r2: Seq<char>,
)
    requires
        heading_pattern(f1.pattern, 1),
        tagged_template(f1.template@, l1, r1),
        heading_pattern(f2.pattern, 2),
        tagged_template(f2.template@, l2, r2),
        l1.len() > 0 && l1[0] != '#',
        l2.len() > 0 && l2[0] != '#',
        no_newline(l1, 0, l1.len() as int),
        no_newline(r1, 0, r1.len() as int),
        no_newline(l2, 0, l2.len() as int),
        no_newline(r2, 0, r2.len() as int),
    ensures
        apply_spec(f2, apply_spec(f1, s)) == apply_spec(f1, apply_spec(f2, s)),
    decreases s.len(),
{
    let e = first_nl(s, 0);
    lemma_first_nl_bounds(s, 0);
    let x = s.subrange(0, e);
    assert(no_newline(x, 0, x.len() as int)) by {
        assert forall|k: int| 0 <= k < x.len() implies x[k] != '\n' by {
            assert(x[k] == s[k]);
        }
    }
    lemma_heading_line_step(f1, s, 1, l1, r1, 0);
    lemma_heading_line_step(f2, s, 2, l2, r2, 0);
    let a1 = apply_line(x, 1, l1, r1);
    let a2 = apply_line(x, 2, l2, r2);
    lemma_apply_line_no_newline(x, 1, l1, r1);
    lemma_apply_line_no_newline(x, 2, l2, r2);
    lemma_apply_line_commute(x, l1, r1, l2, r2);
    if e == s.len() {
        assert(a1 + Seq::<char>::empty() =~= a1);
        assert(a2 + Seq::<char>::empty() =~= a2);
        assert(apply_spec(f1, s) == a1);
        assert(apply_spec(f2, s) == a2);
        lemma_first_nl_determined(a1, 0, a1.len() as int);
        lemma_first_nl_determined(a2, 0, a2.len() as int);
        lemma_heading_line_step(f2, a1, 2, l2, r2, 0);
        lemma_heading_line_step(f1, a2, 1, l1, r1, 0);
        assert(a1.subrange(0, a1.len() as int) =~= a1);
        assert(a2.subrange(0, a2.len() as int) =~= a2);
        assert(apply_line(a1, 2, l2, r2) + Seq::<char>::empty() =~= apply_line(a1, 2, l2, r2));
        assert(apply_line(a2, 1, l1, r1) + Seq::<char>::empty() =~= apply_line(a2, 1, l1, r1));
    } else {
        let y = s.subrange(e + 1, s.len() as int);
        lemma_heading_suffix(f1, s, 1, l1, r1, e + 1);
        lemma_heading_suffix(f2, s, 2, l2, r2, e + 1);
        let b1 = apply_spec(f1, y);
        let b2 = apply_spec(f2, y);
        let t1 = apply_spec(f1, s);
        let t2 = apply_spec(f2, s);
        assert(t1 == a1 + (seq!['\n'] + b1));
        assert(t2 == a2 + (seq!['\n'] + b2));
        lemma_heading_rules_commute(f1, f2, y, l1, r1, l2, r2);
        assert(no_newline(t1, 0, a1.len() as int)) by {
            assert forall|k: int| 0 <= k < a1.len() implies t1[k] != '\n' by {
                assert(t1[k] == a1[k]);
            }
        }
        assert(t1[a1.len() as int] == '\n');
        lemma_first_nl_determined(t1, 0, a1.len() as int);
        assert(line_start(t1, true, a1.len() as int + 1));
        lemma_heading_line_step(f2, t1, 2, l2, r2, 0);
        lemma_heading_suffix(f2, t1, 2, l2, r2, a1.len() as int + 1);
        assert(t1.subrange(0, a1.len() as int) =~= a1);
        assert(t1.subrange(a1.len() as int + 1, t1.len() as int) =~= b1);
        assert(apply_spec(f2, t1) == apply_line(a1, 2, l2, r2) + (seq!['\n'] + apply_spec(
            f2,
            b1,
        )));
        assert(no_newline(t2, 0, a2.len() as int)) by {
            assert forall|k: int| 0 <= k < a2.len() implies t2[k] != '\n' by {
                assert(t2[k] == a2[k]);
            }
        }
        assert(t2[a2.len() as int] == '\n');
        lemma_first_nl_determined(t2, 0, a2.len() as int);
        assert(line_start(t2, true, a2.len() as int + 1));
        lemma_heading_line_step(f1, t2, 1, l1, r1, 0);
        lemma_heading_suffix(f1, t2, 1, l1, r1, a2.len() as int + 1);
        assert(t2.subrange(0, a2.len() as int) =~= a2);
        assert(t2.subrange(a2.len() as int + 1, t2.len() as int) =~= b2);
        assert(apply_spec(f1, t2) == apply_line(a2, 1, l1, r1) + (seq!['\n'] + apply_spec(
            f1,
            b2,
        )));
    }
}

/// Line-anchoring: a heading rule can only match where a line begins —
/// at the very start of the input, or right after a line break.  A
/// marker that appears anywhere else in a line is never converted.
pub proof fn lemma_heading_match_needs_line_start(p: Pattern, s: Seq<char>, hashes: int, i: int)
    requires
        heading_pattern(p, hashes),
        1 <= hashes <= 2,
        match_at(p, s, i) is Some,
    ensures
        line_start(s, true, i),
{
    assert(heading_pre(0) =~= seq![Tok::LineStart]);
    if hashes == 1 {
        assert((heading_pre(1) + seq![Tok::Lit(' ')])[0] == Tok::LineStart);
    } else {
        assert(heading_pre(1) =~= seq![Tok::LineStart, Tok::Lit('#')]);
        assert((heading_pre(2) + seq![Tok::Lit(' ')])[0] == Tok::LineStart);
    }
    assert(p.pre@.len() > 0 && p.pre@[0] == Tok::LineStart);
}

/// The commutation law instantiated at the preset tags: for rules as
/// [`crate::H1Formatter::new`] and [`crate::H2Formatter::new`] build
/// them, applying heading-1 then heading-2 to any input equals applying
/// heading-2 then heading-1.
pub proof fn lemma_preset_heading_rules_commute(f1: Formatter, f2: Formatter, s: Seq<char>)
    requires
        heading_pattern(f1.pattern, 1),
        tagged_template(f1.template@, "<h1>"@, "</h1>"@),
        heading_pattern(f2.pattern, 2),
        tagged_template(f2.template@, "<h2>"@, "</h2>"@),
    ensures
        apply_spec(f2, apply_spec(f1, s)) == apply_spec(f1, apply_spec(f2, s)),
{
    reveal_strlit("<h1>");
    reveal_strlit("</h1>");
    reveal_strlit("<h2>");
    reveal_strlit("</h2>");
    lemma_heading_rules_commute(f1, f2, s, "<h1>"@, "</h1>"@, "<h2>"@, "</h2>"@);
}

} // verus!
