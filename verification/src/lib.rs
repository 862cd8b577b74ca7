//! A minimal text-substitution library that converts a small subset of
//! lightweight markup (heading markers, emphasis markers) into
//! HTML-equivalent tags.
//!
//! The core is one generic substitution engine: a [`Formatter`] holds a
//! compiled pattern of a small, fully specified matching dialect together
//! with a replacement template, and [`format`] replaces every
//! non-overlapping match of the pattern in an input text according to the
//! template.  Three presets configure the engine for level-1 headings,
//! level-2 headings, and italics.
//!
//! The dialect supports literal characters, the anchors `^` and `$`
//! (bound to each line in line-anchored mode, to the whole input
//! otherwise), the word-boundary assertion `\b`, and one named capture
//! group `(?P<name>.+)` whose body takes one or more characters other
//! than a line break, greedily.  Replacement templates hold literal text
//! and `${name}` placeholders.  A rule built from these by
//! [`Formatter::new`] means the same as it would in the common
//! regular-expression notation the syntax is borrowed from.
//!
//! The engine always allocates its output; returning the input itself
//! when nothing matched is deliberately not attempted, and the contract
//! instead guarantees that the output is then equal to the input.

use vstd::prelude::*;

mod engine;
mod formatter;
mod laws;
mod parse;
mod pattern;
mod template;

pub use engine::apply_spec;
pub use engine::rewrite_from;
pub use formatter::ConstructionError;
pub use formatter::Formatter;
pub use formatter::H1Formatter;
pub use formatter::H2Formatter;
pub use formatter::ItalicsFormatter;
pub use formatter::heading_pattern;
pub use formatter::heading_pre;
pub use formatter::italics_pattern;
pub use formatter::tagged_template;
pub use laws::first_nl;
pub use laws::heading_line_matches;
pub use laws::lemma_heading_apply_line;
pub use laws::lemma_heading_match_needs_line_start;
pub use laws::lemma_heading_rules_commute;
pub use laws::lemma_no_match_returns_input;
pub use laws::lemma_preset_heading_rules_commute;
pub use parse::parse_pattern;
pub use parse::parse_template;
pub use pattern::Pattern;
pub use pattern::Tok;
pub use pattern::match_at;
pub use pattern::no_newline;
pub use template::Piece;
pub use template::PieceV;
pub use template::expand;
pub use template::template_v;

verus! {

/// Replaces every non-overlapping match of the rule's pattern in `input`
/// by the expansion of its replacement template; characters outside
/// matches are copied verbatim, line breaks and whitespace included.  The
/// result is a fresh string in every case; when the pattern has no match
/// it is equal to the input.
pub fn format(input: &str, formatter: Formatter) -> (r: String)
    ensures
        r@ == crate::engine::apply_spec(formatter, input@),
{
    let n = input.unicode_len();
    let mut out = String::new();
    let mut i: usize = 0;
    while i < n
        invariant
            i <= n,
            n == input@.len(),
            out@ + crate::engine::rewrite_from(formatter, input@, i as int)
                == crate::engine::apply_spec(formatter, input@),
        decreases n - i,
    {
        match crate::engine::match_at_exec(&formatter.pattern, input, i, n) {
            Some((mid, q, end)) => {
                crate::template::expand_into(&mut out, &formatter.template, input, mid, q);
                proof {
                    assert(out@ + crate::engine::rewrite_from(formatter, input@, end as int)
                        =~= crate::engine::apply_spec(formatter, input@));
                }
                i = end;
            },
            None => {
                out.append(input.substring_char(i, i + 1));
                proof {
                    assert(seq![input@[i as int]] =~= input@.subrange(i as int, i as int + 1));
                    assert(out@ + crate::engine::rewrite_from(formatter, input@, i as int + 1)
                        =~= crate::engine::apply_spec(formatter, input@));
                }
                i = i + 1;
            },
        }
    }
    proof {
        assert(out@ + crate::engine::rewrite_from(formatter, input@, n as int) =~= out@);
    }
    out
}

} // verus!
