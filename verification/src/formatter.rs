//! Rules: a compiled pattern paired with a replacement template, and the
//! three preset rules for level-1 headings, level-2 headings and italics.

use vstd::prelude::*;

use crate::pattern::Pattern;
use crate::pattern::Tok;
use crate::template::Piece;
use crate::template::PieceV;
use crate::template::expand;
use crate::template::lemma_expand_three;
use crate::template::template_v;

verus! {

/// A substitution rule: a compiled pattern and a compiled replacement
/// template.  A rule is immutable once constructed and can be applied to
/// any number of inputs.
pub struct Formatter {
    pub pattern: Pattern,
    pub template: Vec<Piece>,
}

/// The error of constructing a rule from a pattern string that is not a
/// valid pattern of the dialect.
#[derive(Clone, Copy, PartialEq, Eq, Structural, Debug)]
pub struct ConstructionError;

impl Formatter {
    /// Compiles a rule from a pattern string of the dialect's grammar, a
    /// matching mode, and a replacement string.  Succeeds exactly when
    /// the pattern parses; the resulting rule carries the parsed tokens,
    /// the chosen mode, and the compiled template, so that a caller
    /// handing in an untrusted pattern can report the failure instead of
    /// crashing.
    pub fn new(pattern: &str, multi_line: bool, replacement: &str) -> (r: Result<
        Formatter,
        ConstructionError,
    >)
        ensures
            r is Ok <==> crate::parse::parse_pattern(pattern@) is Some,
            r matches Ok(f) ==> crate::parse::parse_pattern(pattern@) matches Some(parts)
                && (f.pattern.pre@, f.pattern.group_name@, f.pattern.post@) == parts
                && f.pattern.multi_line == multi_line
                && template_v(f.template@) == crate::parse::parse_template(
                replacement@,
                f.pattern.group_name@,
                0,
            ),
    {
        match crate::parse::parse_pattern_exec(pattern) {
            Some((pre, group_name, post)) => {
                let template = crate::parse::parse_template_exec(replacement, &group_name);
                Ok(
                    Formatter {
                        pattern: Pattern { pre, group_name, post, multi_line },
                        template,
                    },
                )
            },
            None => Err(ConstructionError),
        }
    }
}

/// A template of the shape `left ${group} right`: literal text, the
/// capture, literal text.
pub open spec fn tagged_template(t: Seq<Piece>, left: Seq<char>, right: Seq<char>) -> bool {
    forall|cap: Seq<char>| #[trigger] expand(template_v(t), cap) == left + cap + right
}

/// Builds the template `left`, capture, `right`.
fn make_tagged_template(left: &str, right: &str) -> (t: Vec<Piece>)
    ensures
        tagged_template(t@, left@, right@),
{
    let mut t: Vec<Piece> = Vec::new();
    t.push(Piece::Lit(String::from_str(left)));
    t.push(Piece::Capture);
    t.push(Piece::Lit(String::from_str(right)));
    proof {
        assert(template_v(t@) =~= seq![
            PieceV::Lit(left@),
            PieceV::Capture,
            PieceV::Lit(right@),
        ]);
        assert forall|cap: Seq<char>| #[trigger] expand(template_v(t@), cap) == left@ + cap
            + right@ by {
            lemma_expand_three(left@, right@, cap);
        }
    }
    t
}

/// The pattern tokens of a heading rule of the given marker depth: line
/// start, that many `#`, one space.
pub open spec fn heading_pre(hashes: int) -> Seq<Tok>
    decreases hashes,
{
    if hashes <= 0 {
        seq![Tok::LineStart]
    } else {
        heading_pre(hashes - 1) + seq![Tok::Lit('#')]
    }
}

/// A heading rule: the marker at line start, a captured title running to
/// the line end, line-anchored matching.
pub open spec fn heading_pattern(p: Pattern, hashes: int) -> bool {
    &&& p.pre@ == heading_pre(hashes) + seq![Tok::Lit(' ')]
    &&& p.post@ == seq![Tok::LineEnd]
    &&& p.multi_line == true
}

/// Builds a heading pattern with `hashes` marker characters.
fn make_heading_pattern(hashes: u8, name: &str) -> (p: Pattern)
    requires
        1 <= hashes <= 2,
    ensures
        heading_pattern(p, hashes as int),
        p.group_name@ == name@,
{
    let mut pre: Vec<Tok> = Vec::new();
    pre.push(Tok::LineStart);
    let mut k: u8 = 0;
    while k < hashes
        invariant
            k <= hashes,
            pre@ == heading_pre(k as int),
        decreases hashes - k,
    {
        pre.push(Tok::Lit('#'));
        k = k + 1;
    }
    pre.push(Tok::Lit(' '));
    let mut post: Vec<Tok> = Vec::new();
    post.push(Tok::LineEnd);
    let mut group_name: Vec<char> = Vec::new();
    let n = name.unicode_len();
    let mut i: usize = 0;
    while i < n
        invariant
            i <= n,
            n == name@.len(),
            group_name@ == name@.subrange(0, i as int),
        decreases n - i,
    {
        group_name.push(name.get_char(i));
        proof {
            assert(group_name@ =~= name@.subrange(0, i as int + 1));
        }
        i = i + 1;
    }
    proof {
        assert(group_name@ =~= name@);
        assert(post@ =~= seq![Tok::LineEnd]);
        assert(pre@ =~= heading_pre(hashes as int) + seq![Tok::Lit(' ')]);
    }
    Pattern { pre, group_name, post, multi_line: true }
}

/// The preset for level-1 headings: a line `# title` becomes
/// `<h1>title</h1>`.
pub struct H1Formatter;

impl H1Formatter {
    /// Builds the level-1 heading rule.
    pub fn new() -> (r: Formatter)
        ensures
            heading_pattern(r.pattern, 1),
            tagged_template(r.template@, "<h1>"@, "</h1>"@),
    {
        Formatter {
            pattern: make_heading_pattern(1, "title"),
            template: make_tagged_template("<h1>", "</h1>"),
        }
    }
}

/// The preset for level-2 headings: a line `## title` becomes
/// `<h2>title</h2>`.
pub struct H2Formatter;

impl H2Formatter {
    /// Builds the level-2 heading rule.
    pub fn new() -> (r: Formatter)
        ensures
            heading_pattern(r.pattern, 2),
            tagged_template(r.template@, "<h2>"@, "</h2>"@),
    {
        Formatter {
            pattern: make_heading_pattern(2, "title"),
            template: make_tagged_template("<h2>", "</h2>"),
        }
    }
}

/// The italics pattern: an underscore at a word boundary, captured
/// contents, an underscore before a word boundary; matching over the
/// whole input, not per line.
pub open spec fn italics_pattern(p: Pattern) -> bool {
    &&& p.pre@ == seq![Tok::WordBoundary, Tok::Lit('_')]
    &&& p.post@ == seq![Tok::Lit('_'), Tok::WordBoundary]
    &&& p.multi_line == false
}

/// The preset for italics: `_contents_` bounded by word boundaries
/// becomes `<i>contents</i>`.
pub struct ItalicsFormatter;

impl ItalicsFormatter {
    /// Builds the italics rule.
    pub fn new() -> (r: Formatter)
        ensures
            italics_pattern(r.pattern),
            tagged_template(r.template@, "<i>"@, "</i>"@),
    {
        let mut pre: Vec<Tok> = Vec::new();
        pre.push(Tok::WordBoundary);
        pre.push(Tok::Lit('_'));
        let mut post: Vec<Tok> = Vec::new();
        post.push(Tok::Lit('_'));
        post.push(Tok::WordBoundary);
        let mut group_name: Vec<char> = Vec::new();
        group_name.push('c');
        group_name.push('o');
        group_name.push('n');
        group_name.push('t');
        group_name.push('e');
        group_name.push('n');
        group_name.push('t');
        group_name.push('s');
        proof {
            assert(pre@ =~= seq![Tok::WordBoundary, Tok::Lit('_')]);
            assert(post@ =~= seq![Tok::Lit('_'), Tok::WordBoundary]);
        }
        Formatter {
            pattern: Pattern { pre, group_name, post, multi_line: false },
            template: make_tagged_template("<i>", "</i>"),
        }
    }
}

} // verus!

