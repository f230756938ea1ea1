//! Glyph placer: walks a line's glyphs in visual order, accumulating the
//! horizontal pen position from the alignment offset (plus any justification
//! extras at word gaps), and assembles the final laid-out line with its
//! metrics.

use vstd::prelude::*;

use crate::align::sum_extras;
use crate::model::{LayoutGlyph, LayoutLine, ShapedGlyph, MAX_DIM, MAX_POS, wf_glyphs, wf_layout_glyph};
use crate::width::{lemma_width_monotone, lemma_width_unfold_back, width_of};

verus! {

/// Maximum ascent among `line[..upto]`, never negative.
pub open spec fn max_ascent_of(line: Seq<ShapedGlyph>, upto: int) -> int
    decreases upto,
{
    if upto <= 0 {
        0
    } else {
        let p = max_ascent_of(line, upto - 1);
        if line[upto - 1].ascent > p {
            line[upto - 1].ascent as int
        } else {
            p
        }
    }
}

/// Maximum descent among `line[..upto]`, never negative.
pub open spec fn max_descent_of(line: Seq<ShapedGlyph>, upto: int) -> int
    decreases upto,
{
    if upto <= 0 {
        0
    } else {
        let p = max_descent_of(line, upto - 1);
        if line[upto - 1].descent > p {
            line[upto - 1].descent as int
        } else {
            p
        }
    }
}

/// Maximum line-height override among `line[..upto]`, or `None` when no
/// glyph carries one.
pub open spec fn line_height_of(line: Seq<ShapedGlyph>, upto: int) -> Option<i64>
    decreases upto,
{
    if upto <= 0 {
        None
    } else {
        let p = line_height_of(line, upto - 1);
        match line[upto - 1].line_height_opt {
            Some(h) => match p {
                Some(c) => if h > c {
                    Some(h)
                } else {
                    Some(c)
                },
                None => Some(h),
            },
            None => p,
        }
    }
}

/// The maxima stay within the input bound.
pub proof fn lemma_metrics_bounds(line: Seq<ShapedGlyph>, upto: int)
    requires
        0 <= upto <= line.len(),
        wf_glyphs(line),
    ensures
        0 <= max_ascent_of(line, upto) <= MAX_DIM,
        0 <= max_descent_of(line, upto) <= MAX_DIM,
    decreases upto,
{
    if upto > 0 {
        lemma_metrics_bounds(line, upto - 1);
    }
}

/// Whether a justification gap lies immediately before visual position
/// `v`: the glyphs at `v - 1` and `v` belong to different words. Within a
/// left-to-right stretch the later glyph carries its word's start flag;
/// within a right-to-left stretch the glyphs run reversed, so the earlier
/// visual glyph is the logically later one and carries the flag; a change
/// of direction parity is itself a word boundary.
pub open spec fn gap_before(line: Seq<ShapedGlyph>, v: int) -> bool {
    &&& 1 <= v < line.len()
    &&& {
        let prev = line[v - 1];
        let cur = line[v];
        if prev.level % 2 == 1 && cur.level % 2 == 1 {
            prev.word_start
        } else if prev.level % 2 == 0 && cur.level % 2 == 0 {
            cur.word_start
        } else {
            true
        }
    }
}

/// Number of justification gaps before the visual positions below `v`.
pub open spec fn gaps_upto(line: Seq<ShapedGlyph>, v: int) -> int
    decreases v,
{
    if v <= 1 {
        0
    } else {
        gaps_upto(line, v - 1) + if gap_before(line, v - 1) {
            1int
        } else {
            0int
        }
    }
}

/// Number of extras consumed once the glyphs below visual position `v` are
/// placed: one per gap passed, never more than were supplied.
pub open spec fn consumed_extras(line: Seq<ShapedGlyph>, extras: Seq<i64>, v: int) -> int {
    if gaps_upto(line, v) <= extras.len() {
        gaps_upto(line, v)
    } else {
        extras.len() as int
    }
}

/// The gap count is never negative.
pub proof fn lemma_gaps_upto_nonneg(line: Seq<ShapedGlyph>, v: int)
    ensures
        0 <= gaps_upto(line, v),
    decreases v,
{
    if v > 1 {
        lemma_gaps_upto_nonneg(line, v - 1);
    }
}

/// The gap count is monotone in the scanned prefix.
pub proof fn lemma_gaps_upto_monotone(line: Seq<ShapedGlyph>, a: int, b: int)
    requires
        a <= b,
    ensures
        gaps_upto(line, a) <= gaps_upto(line, b),
    decreases b - a,
{
    if a < b {
        lemma_gaps_upto_monotone(line, a, b - 1);
    }
}

/// The consumed portion of the extras is non-negative, monotone in the
/// scanned prefix, and never exceeds the number of extras supplied.
pub proof fn lemma_consumed_monotone(line: Seq<ShapedGlyph>, extras: Seq<i64>, a: int, b: int)
    requires
        a <= b,
    ensures
        0 <= consumed_extras(line, extras, a) <= consumed_extras(line, extras, b)
            <= extras.len(),
{
    lemma_gaps_upto_nonneg(line, a);
    lemma_gaps_upto_nonneg(line, b);
    lemma_gaps_upto_monotone(line, a, b);
}

/// A sum of non-negative extras is non-negative and monotone.
pub proof fn lemma_sum_extras_bounds(extras: Seq<i64>, a: int, b: int)
    requires
        0 <= a <= b <= extras.len(),
        forall|k: int| 0 <= k < extras.len() ==> 0 <= #[trigger] extras[k],
    ensures
        0 <= sum_extras(extras, a) <= sum_extras(extras, b),
    decreases b,
{
    if b > 0 {
        if a == b {
            lemma_sum_extras_bounds(extras, if a > 0 { a - 1 } else { 0 }, b - 1);
        } else {
            lemma_sum_extras_bounds(extras, a, b - 1);
        }
    }
}

/// The pen position of the glyph at visual index `v`: the line's start
/// offset, plus the advances of the glyphs before it, plus every
/// justification extra consumed at word gaps up to and including `v`.
pub open spec fn spec_glyph_x(
    line: Seq<ShapedGlyph>,
    extras: Seq<i64>,
    start_x: int,
    v: int,
) -> int {
    start_x + width_of(line, 0, v) + sum_extras(extras, consumed_extras(line, extras, v + 1))
}

/// The laid-out record of the glyph at visual index `v`: cluster, font and
/// metadata carried over; hitbox origin at the accumulated pen position and
/// the line's baseline (its maximum ascent); hitbox width equal to the
/// advance; render-time nudges carried over unchanged.
pub open spec fn spec_layout_glyph(
    line: Seq<ShapedGlyph>,
    extras: Seq<i64>,
    start_x: int,
    v: int,
) -> LayoutGlyph {
    let g = line[v];
    LayoutGlyph {
        start: g.start,
        end: g.end,
        font_size: g.font_size,
        line_height_opt: g.line_height_opt,
        font_id: g.font_id,
        glyph_id: g.glyph_id,
        x: spec_glyph_x(line, extras, start_x, v) as i64,
        y: max_ascent_of(line, line.len() as int) as i64,
        w: g.advance,
        level: g.level,
        x_offset: g.x_offset,
        y_offset: g.y_offset,
        color_opt: g.color_opt,
        metadata: g.metadata,
        cache_key_flags: g.cache_key_flags,
    }
}

/// Places a line's glyphs (already in visual order), accumulating the pen
/// position from `start_x` and consuming one justification extra at each
/// word gap; returns the laid-out line with its metrics. The render-time
/// nudges do not move later glyphs.
pub fn place_line(line: &Vec<ShapedGlyph>, start_x: i64, extras: &Vec<i64>) -> (r: LayoutLine)
    requires
        wf_glyphs(line@),
        forall|k: int| 0 <= k < extras@.len() ==> 0 <= #[trigger] extras@[k] <= MAX_DIM,
        -MAX_POS <= start_x,
        start_x + width_of(line@, 0, line@.len() as int) + sum_extras(
            extras@,
            extras@.len() as int,
        ) <= MAX_POS,
    ensures
        r.glyphs@.len() == line@.len(),
        forall|v: int| 0 <= v < line@.len() ==> #[trigger] r.glyphs@[v] == spec_layout_glyph(
            line@,
            extras@,
            start_x as int,
            v,
        ),
        r.w == width_of(line@, 0, line@.len() as int) + sum_extras(
            extras@,
            consumed_extras(line@, extras@, line@.len() as int),
        ),
        forall|v: int| 0 <= v < line@.len() ==> wf_layout_glyph(#[trigger] r.glyphs@[v]),
        r.max_ascent == max_ascent_of(line@, line@.len() as int),
        r.max_descent == max_descent_of(line@, line@.len() as int),
        r.line_height_opt == line_height_of(line@, line@.len() as int),
{
    let n = line.len();

    // first pass: line metrics
    let mut max_ascent: i64 = 0;
    let mut max_descent: i64 = 0;
    let mut line_height_opt: Option<i64> = None;
    let mut i: usize = 0;
    while i < n
        invariant
            wf_glyphs(line@),
            n == line@.len(),
            0 <= i <= n,
            max_ascent == max_ascent_of(line@, i as int),
            max_descent == max_descent_of(line@, i as int),
            line_height_opt == line_height_of(line@, i as int),
        decreases n - i,
    {
        let g = line[i];
        if g.ascent > max_ascent {
            max_ascent = g.ascent;
        }
        if g.descent > max_descent {
            max_descent = g.descent;
        }
        match g.line_height_opt {
            Some(h) => {
                line_height_opt = match line_height_opt {
                    Some(c) => if h > c {
                        Some(h)
                    } else {
                        Some(c)
                    },
                    None => Some(h),
                };
            },
            None => {},
        }
        i = i + 1;
    }
    proof {
        lemma_metrics_bounds(line@, n as int);
    }

    // second pass: pen accumulation in visual order
    let ghost total: int = width_of(line@, 0, n as int) + sum_extras(extras@, extras@.len() as int);
    proof {
        crate::width::lemma_width_bounds(line@, 0, n as int);
        lemma_sum_extras_bounds(extras@, 0, extras@.len() as int);
    }
    let extras_len = extras.len();
    let mut glyphs: Vec<LayoutGlyph> = Vec::new();
    let mut pen: i64 = start_x;
    let mut gi: usize = 0;
    let mut v: usize = 0;
    while v < n
        invariant
            wf_glyphs(line@),
            n == line@.len(),
            0 <= v <= n,
            extras_len == extras@.len(),
            forall|k: int| 0 <= k < extras@.len() ==> 0 <= #[trigger] extras@[k] <= MAX_DIM,
            -MAX_POS <= start_x,
            total == width_of(line@, 0, n as int) + sum_extras(extras@, extras@.len() as int),
            start_x + total <= MAX_POS,
            gi == consumed_extras(line@, extras@, v as int),
            pen == start_x + width_of(line@, 0, v as int) + sum_extras(extras@, gi as int),
            0 <= width_of(line@, 0, v as int) + sum_extras(extras@, gi as int) <= total,
            glyphs@.len() == v,
            0 <= max_ascent <= MAX_DIM,
            max_ascent == max_ascent_of(line@, n as int),
            forall|k: int| 0 <= k < v ==> #[trigger] glyphs@[k] == spec_layout_glyph(
                line@,
                extras@,
                start_x as int,
                k,
            ),
            forall|k: int| 0 <= k < v ==> wf_layout_glyph(#[trigger] glyphs@[k]),
        decreases n - v,
    {
        let g = line[v];
        let boundary: bool = if v > 0 {
            let prev = line[v - 1];
            if prev.level % 2 == 1 && g.level % 2 == 1 {
                prev.word_start
            } else if prev.level % 2 == 0 && g.level % 2 == 0 {
                g.word_start
            } else {
                true
            }
        } else {
            false
        };
        proof {
            assert(boundary == gap_before(line@, v as int));
            assert(gaps_upto(line@, v as int + 1) == gaps_upto(line@, v as int) + if gap_before(
                line@,
                v as int,
            ) {
                1int
            } else {
                0int
            });
            lemma_consumed_monotone(line@, extras@, v as int, v as int + 1);
            lemma_consumed_monotone(line@, extras@, v as int + 1, n as int);
            lemma_sum_extras_bounds(
                extras@,
                gi as int,
                consumed_extras(line@, extras@, v as int + 1),
            );
            lemma_sum_extras_bounds(
                extras@,
                consumed_extras(line@, extras@, v as int + 1),
                extras@.len() as int,
            );
            lemma_width_monotone(line@, 0, v as int, n as int);
            lemma_width_monotone(line@, 0, v as int + 1, n as int);
            lemma_width_unfold_back(line@, 0, v as int + 1);
        }
        if boundary && gi < extras_len {
            pen = pen + extras[gi];
            gi = gi + 1;
        }
        let placed = LayoutGlyph {
            start: g.start,
            end: g.end,
            font_size: g.font_size,
            line_height_opt: g.line_height_opt,
            font_id: g.font_id,
            glyph_id: g.glyph_id,
            x: pen,
            y: max_ascent,
            w: g.advance,
            level: g.level,
            x_offset: g.x_offset,
            y_offset: g.y_offset,
            color_opt: g.color_opt,
            metadata: g.metadata,
            cache_key_flags: g.cache_key_flags,
        };
        glyphs.push(placed);
        pen = pen + g.advance;
        v = v + 1;
    }
    LayoutLine { w: pen - start_x, max_ascent, max_descent, line_height_opt, glyphs }
}

} // verus!
