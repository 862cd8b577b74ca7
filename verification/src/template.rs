//! Replacement templates and their expansion.
//!
//! A template is a sequence of pieces: literal text and the capture of the
//! pattern's named group.  Placeholders are resolved against the group
//! name when the template is compiled, so a piece is either literal text
//! or the capture itself; a placeholder naming an unknown group expands to
//! nothing and leaves no piece behind.

use vstd::prelude::*;

verus! {

/// One compiled piece of a replacement template.
pub enum Piece {
    /// Literal text copied into every replacement.
    Lit(String),
    /// The text captured by the pattern's named group.
    Capture,
}

/// The specification-level value of a template piece.
pub enum PieceV {
    Lit(Seq<char>),
    Capture,
}

/// The specification-level value of one compiled piece.
pub open spec fn piece_v(p: Piece) -> PieceV {
    match p {
        Piece::Lit(l) => PieceV::Lit(l@),
        Piece::Capture => PieceV::Capture,
    }
}

/// The specification-level value of a compiled template.
pub open spec fn template_v(t: Seq<Piece>) -> Seq<PieceV> {
    t.map_values(|p: Piece| piece_v(p))
}

/// The text one piece contributes when the group captured `cap`.
pub open spec fn piece_text(p: PieceV, cap: Seq<char>) -> Seq<char> {
    match p {
        PieceV::Lit(l) => l,
        PieceV::Capture => cap,
    }
}

/// The expansion of a template: the concatenation of its pieces' texts,
/// with the capture `cap` filled in for the group.
pub open spec fn expand(t: Seq<PieceV>, cap: Seq<char>) -> Seq<char>
    decreases t.len(),
{
    if t.len() == 0 {
        Seq::empty()
    } else {
        piece_text(t[0], cap) + expand(t.drop_first(), cap)
    }
}

/// The expansion of a template of the shape `left ${group} right` is the
/// capture between the two literal texts.
pub proof fn lemma_expand_three(left: Seq<char>, right: Seq<char>, cap: Seq<char>)
    ensures
        expand(seq![PieceV::Lit(left), PieceV::Capture, PieceV::Lit(right)], cap) == left + cap
            + right,
{
    let t = seq![PieceV::Lit(left), PieceV::Capture, PieceV::Lit(right)];
    let d1 = seq![PieceV::Capture, PieceV::Lit(right)];
    let d2 = seq![PieceV::Lit(right)];
    assert(t.drop_first() =~= d1);
    assert(d1.drop_first() =~= d2);
    assert(d2.drop_first() =~= Seq::<PieceV>::empty());
    assert(expand(Seq::<PieceV>::empty(), cap) =~= Seq::<char>::empty());
    assert(expand(d2, cap) =~= right);
    assert(expand(d1, cap) =~= cap + right);
    assert(expand(t, cap) =~= left + cap + right);
}

/// Appends to `out` the expansion of `t` with the capture `cap`, given as
/// the span `s[from .. to]` of the input.
pub fn expand_into(out: &mut String, t: &Vec<Piece>, s: &str, from: usize, to: usize)
    requires
        from <= to <= s@.len(),
    ensures
        final(out)@ == old(out)@ + expand(template_v(t@), s@.subrange(from as int, to as int)),
{
    let ghost cap = s@.subrange(from as int, to as int);
    proof {
        assert(template_v(t@).skip(0) =~= template_v(t@));
    }
    let mut k: usize = 0;
    while k < t.len()
        invariant
            k <= t.len(),
            from <= to <= s@.len(),
            cap == s@.subrange(from as int, to as int),
            out@ + expand(template_v(t@).skip(k as int), cap)
                == old(out)@ + expand(template_v(t@), cap),
        decreases t.len() - k,
    {
        let ghost rest = template_v(t@).skip(k as int);
        proof {
            assert(rest[0] == piece_v(t@[k as int]));
            assert(rest.drop_first() =~= template_v(t@).skip(k as int + 1));
        }
        match &t[k] {
            Piece::Lit(l) => {
                out.append(l.as_str());
            },
            Piece::Capture => {
                out.append(s.substring_char(from, to));
            },
        }
        proof {
            assert(out@ + expand(template_v(t@).skip(k as int + 1), cap)
                =~= old(out)@ + expand(template_v(t@), cap));
        }
        k = k + 1;
    }
    proof {
        assert(template_v(t@).skip(t@.len() as int) =~= Seq::<PieceV>::empty());
        assert(out@ =~= old(out)@ + expand(template_v(t@), cap));
    }
}

} // verus!
