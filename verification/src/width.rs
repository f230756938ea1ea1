//! Width accounting: sums of advance widths over glyph ranges.

use vstd::prelude::*;

use crate::model::{ShapedGlyph, MAX_DIM, wf_glyph};

verus! {

/// Total advance width of `glyphs[from..to]`, in subunits.
pub open spec fn width_of(glyphs: Seq<ShapedGlyph>, from: int, to: int) -> int
    decreases to - from,
{
    if from >= to {
        0
    } else {
        glyphs[from].advance + width_of(glyphs, from + 1, to)
    }
}

/// Peeling the last glyph off a range.
pub proof fn lemma_width_unfold_back(glyphs: Seq<ShapedGlyph>, from: int, to: int)
    requires
        from < to,
    ensures
        width_of(glyphs, from, to) == width_of(glyphs, from, to - 1) + glyphs[to - 1].advance,
    decreases to - from,
{
    if from + 1 == to {
        assert(width_of(glyphs, from + 1, to) == 0);
        assert(width_of(glyphs, from, to - 1) == 0);
    } else {
        lemma_width_unfold_back(glyphs, from + 1, to);
        assert(width_of(glyphs, from, to) == glyphs[from].advance + width_of(glyphs, from + 1, to));
        assert(width_of(glyphs, from, to - 1) == glyphs[from].advance + width_of(
            glyphs,
            from + 1,
            to - 1,
        ));
    }
}

/// A range of well-formed glyphs has a width between 0 and its length times
/// the largest advance.
pub proof fn lemma_width_bounds(glyphs: Seq<ShapedGlyph>, from: int, to: int)
    requires
        0 <= from,
        to <= glyphs.len(),
        forall|i: int| 0 <= i < glyphs.len() ==> wf_glyph(#[trigger] glyphs[i]),
    ensures
        from <= to ==> 0 <= width_of(glyphs, from, to) <= (to - from) * MAX_DIM,
    decreases to - from,
{
    if from < to {
        lemma_width_bounds(glyphs, from + 1, to);
    }
}

/// Widths of adjacent ranges add up.
pub proof fn lemma_width_split(glyphs: Seq<ShapedGlyph>, a: int, b: int, c: int)
    requires
        a <= b <= c,
    ensures
        width_of(glyphs, a, c) == width_of(glyphs, a, b) + width_of(glyphs, b, c),
    decreases b - a,
{
    if a < b {
        lemma_width_split(glyphs, a + 1, b, c);
    }
}

/// Ranges that hold the same glyphs have the same width.
pub proof fn lemma_width_congruent(
    s1: Seq<ShapedGlyph>,
    a1: int,
    s2: Seq<ShapedGlyph>,
    a2: int,
    len: int,
)
    requires
        forall|d: int| 0 <= d < len ==> #[trigger] s1[a1 + d] == s2[a2 + d],
    ensures
        width_of(s1, a1, a1 + len) == width_of(s2, a2, a2 + len),
    decreases len,
{
    if len > 0 {
        assert(s1[a1] == s2[a2]) by {
            assert(s1[a1 + 0] == s2[a2 + 0]);
        }
        assert forall|d: int| 0 <= d < len - 1 implies #[trigger] s1[a1 + 1 + d] == s2[a2 + 1
            + d] by {
            assert(s1[a1 + (d + 1)] == s2[a2 + (d + 1)]);
        }
        lemma_width_congruent(s1, a1 + 1, s2, a2 + 1, len - 1);
    }
}

/// Width is monotone in the right endpoint when advances are non-negative.
pub proof fn lemma_width_monotone(glyphs: Seq<ShapedGlyph>, from: int, to1: int, to2: int)
    requires
        0 <= from <= to1 <= to2 <= glyphs.len(),
        forall|i: int| 0 <= i < glyphs.len() ==> wf_glyph(#[trigger] glyphs[i]),
    ensures
        width_of(glyphs, from, to1) <= width_of(glyphs, from, to2),
{
    lemma_width_split(glyphs, from, to1, to2);
    lemma_width_bounds(glyphs, to1, to2);
}

} // verus!
