//! The layout pipeline: break → reorder → ellipsize → align → place.
//!
//! Each stage consumes the previous stage's owned output; the pass is a
//! one-shot pure computation over an immutable glyph sequence and the
//! caller-supplied policy values.

use vstd::prelude::*;

use crate::align::{
    align_offset, count_gaps, gap_count, justify_gaps, spec_align_offset, sum_extras,
};
use crate::bidi::{glyph_visual_of, reorder_glyphs};
use crate::ellipsize::{
    copy_range, ellipsize_end_line, ellipsize_middle, ellipsize_start, resolve_height_limit,
};
use crate::model::{
    Align, Ellipsize, HeightLimit, LayoutLine, LineSpan, ShapedGlyph, Wrap, MAX_DIM, MAX_GLYPHS,
    MAX_LINE_HEIGHT, MAX_POS, wf_glyph, wf_glyphs, wf_layout_glyph,
};
use crate::place::{
    line_height_of, max_ascent_of, max_descent_of, place_line, spec_layout_glyph,
};
use crate::width::{
    lemma_width_bounds, lemma_width_split, lemma_width_unfold_back, width_of,
};
use crate::ellipsize::sum_heights;
use crate::wrap::{break_lines, spans_cover, spans_obey};

verus! {

/// The caller-supplied policy of one layout pass: immutable for its
/// duration.
#[derive(Clone, Copy, Debug)]
pub struct LayoutParams {
    /// Wrapping mode.
    pub wrap: Wrap,
    /// Horizontal alignment or justification.
    pub align: Align,
    /// Ellipsize mode.
    pub ellipsize: Ellipsize,
    /// Target line width, in subunits.
    pub max_width: i64,
    /// Available vertical extent for `HeightLimit::Height`, in subunits.
    pub available_height: i64,
    /// Base direction of the paragraph: true for right-to-left.
    pub rtl: bool,
    /// Whether the paragraph's last line is stretched under justification.
    pub justify_last_line: bool,
}

/// Accepted policy values: a bounded non-negative target width and a
/// non-negative vertical extent.
pub open spec fn wf_params(params: LayoutParams) -> bool {
    &&& 0 <= params.max_width <= MAX_DIM
    &&& 0 <= params.available_height
}

/// The nominal height of one glyph: its line-height override if present,
/// else its ascent plus descent.
pub open spec fn glyph_height(g: ShapedGlyph) -> int {
    match g.line_height_opt {
        Some(h) => h as int,
        None => g.ascent + g.descent,
    }
}

/// The height of the line spanning `glyphs[s..e]`: its tallest glyph's
/// height, zero when empty.
pub open spec fn range_height(glyphs: Seq<ShapedGlyph>, s: int, e: int) -> int
    decreases e - s,
{
    if s >= e {
        0
    } else {
        let p = range_height(glyphs, s, e - 1);
        if glyph_height(glyphs[e - 1]) > p {
            glyph_height(glyphs[e - 1])
        } else {
            p
        }
    }
}

/// A line's height is bounded by the tallest admissible glyph.
proof fn lemma_range_height_bounds(glyphs: Seq<ShapedGlyph>, s: int, e: int)
    requires
        wf_glyphs(glyphs),
        0 <= s,
        e <= glyphs.len(),
    ensures
        0 <= range_height(glyphs, s, e) <= MAX_LINE_HEIGHT,
    decreases e - s,
{
    if s < e {
        lemma_range_height_bounds(glyphs, s, e - 1);
    }
}

/// Measures the height of the line spanning `span`.
fn span_height(glyphs: &Vec<ShapedGlyph>, span: LineSpan) -> (h: i64)
    requires
        wf_glyphs(glyphs@),
        span.start <= span.end <= glyphs@.len(),
    ensures
        h == range_height(glyphs@, span.start as int, span.end as int),
        0 <= h <= MAX_LINE_HEIGHT,
{
    proof {
        lemma_range_height_bounds(glyphs@, span.start as int, span.end as int);
    }
    let mut h: i64 = 0;
    let mut i: usize = span.start;
    while i < span.end
        invariant
            wf_glyphs(glyphs@),
            span.start <= i <= span.end <= glyphs@.len(),
            h == range_height(glyphs@, span.start as int, i as int),
        decreases span.end - i,
    {
        let g = glyphs[i];
        let gh: i64 = match g.line_height_opt {
            Some(lh) => lh,
            None => g.ascent + g.descent,
        };
        if gh > h {
            h = gh;
        }
        i = i + 1;
    }
    h
}

/// A vector of `g` zero extras.
fn zero_extras(g: usize) -> (extras: Vec<i64>)
    ensures
        extras@.len() == g,
        forall|k: int| 0 <= k < g ==> #[trigger] extras@[k] == 0,
        sum_extras(extras@, g as int) == 0,
{
    let mut extras: Vec<i64> = Vec::new();
    let mut i: usize = 0;
    while i < g
        invariant
            extras@.len() == i,
            i <= g,
            forall|k: int| 0 <= k < i ==> #[trigger] extras@[k] == 0,
            sum_extras(extras@, i as int) == 0,
        decreases g - i,
    {
        let ghost pre = extras@;
        extras.push(0);
        proof {
            crate::align::lemma_sum_extras_prefix(pre, extras@, i as int);
        }
        i = i + 1;
    }
    extras
}

/// Whether a line is stretched by justification: only under
/// `Align::Justified`, only when it has at least one inter-word gap, and
/// not when it is the paragraph's exempt last line. Gaps are counted on the
/// logical sequence (word count minus one), independent of direction: a
/// line holding a single word is never stretched, whatever its levels or
/// word-start flags.
pub open spec fn spec_stretched(params: LayoutParams, piece: Seq<ShapedGlyph>, is_last: bool) -> bool {
    &&& params.align == Align::Justified
    &&& gap_count(piece, piece.len() as int) > 0
    &&& (params.justify_last_line || !is_last)
}

/// The start offset of a finished line: its alignment offset, with a
/// justified line that is not stretched falling back to the base-direction
/// edge (left for a left-to-right paragraph, right otherwise).
pub open spec fn spec_line_offset(params: LayoutParams, line_width: int, stretched: bool) -> int {
    if params.align == Align::Justified && !stretched {
        spec_align_offset(
            if params.rtl {
                Align::Right
            } else {
                Align::Left
            },
            line_width,
            params.max_width as int,
            params.rtl,
        )
    } else {
        spec_align_offset(params.align, line_width, params.max_width as int, params.rtl)
    }
}

/// The justification extras of a stretched line: the leftover width spread
/// evenly over the line's logically counted inter-word gaps, remainder to
/// the last gap.
pub open spec fn spec_justify_extras(piece: Seq<ShapedGlyph>, line_width: int, max_width: int) -> Seq<i64> {
    let g = gap_count(piece, piece.len() as int);
    let extra: int = if max_width >= line_width {
        max_width - line_width
    } else {
        0
    };
    Seq::new(
        g as nat,
        |i: int|
            if i < g - 1 {
                (extra / g) as i64
            } else {
                (extra / g + extra % g) as i64
            },
    )
}

/// The extras a finished line receives: justification extras when it is
/// stretched, zeros otherwise.
pub open spec fn spec_line_extras(
    params: LayoutParams,
    piece: Seq<ShapedGlyph>,
    line_width: int,
    is_last: bool,
) -> Seq<i64> {
    if spec_stretched(params, piece, is_last) {
        spec_justify_extras(piece, line_width, params.max_width as int)
    } else {
        Seq::new(gap_count(piece, piece.len() as int) as nat, |i: int| 0i64)
    }
}

/// A finished line is well-formed: every glyph record is within bounds and
/// the line's width and metrics are non-negative.
pub open spec fn wf_layout_line(line: LayoutLine) -> bool {
    &&& forall|v: int| 0 <= v < line.glyphs@.len() ==> wf_layout_glyph(
        #[trigger] line.glyphs@[v],
    )
    &&& 0 <= line.w
    &&& 0 <= line.max_ascent
    &&& 0 <= line.max_descent
}

/// The per-candidate-line heights of a breaking: each line's tallest glyph.
pub open spec fn spec_span_heights(glyphs: Seq<ShapedGlyph>, spans: Seq<LineSpan>) -> Seq<i64> {
    Seq::new(
        spans.len(),
        |i: int| range_height(glyphs, spans[i].start as int, spans[i].end as int) as i64,
    )
}

/// `keep` is the height limit resolved against a breaking: one line for
/// `Default`, `max(m, 1)` for `Lines(m)`, and for `Height` the largest
/// whole-line count fitting the available extent, at least one.
pub open spec fn spec_resolved_keep(
    glyphs: Seq<ShapedGlyph>,
    spans: Seq<LineSpan>,
    limit: HeightLimit,
    available: int,
    keep: int,
) -> bool {
    let heights = spec_span_heights(glyphs, spans);
    &&& 1 <= keep
    &&& (limit == HeightLimit::Default ==> keep == 1)
    &&& (limit matches HeightLimit::Lines(m) ==> keep == if m == 0 {
        1int
    } else {
        m as int
    })
    &&& (limit == HeightLimit::Height ==> {
        &&& keep <= if spans.len() == 0 {
            1int
        } else {
            spans.len() as int
        }
        &&& (keep > 1 ==> sum_heights(heights, keep) <= available)
        &&& (keep < spans.len() ==> sum_heights(heights, keep + 1) > available)
    })
}

/// The finished lines of an end-ellipsized paragraph, described against a
/// legal breaking and a resolved line cap: within the cap, every candidate
/// line is kept whole; over it, the first `keep - 1` lines are kept whole
/// and the last kept line holds the longest fitting prefix of its span
/// with the ellipsis appended.
pub open spec fn spec_end_layout(
    lines: Seq<LayoutLine>,
    glyphs: Seq<ShapedGlyph>,
    params: LayoutParams,
    limit: HeightLimit,
    ellipsis: ShapedGlyph,
    spans: Seq<LineSpan>,
    keep: int,
) -> bool {
    &&& spans_obey(glyphs, params.wrap, params.max_width as int, spans)
    &&& spec_resolved_keep(glyphs, spans, limit, params.available_height as int, keep)
    &&& if spans.len() <= keep {
        &&& lines.len() == spans.len()
        &&& (forall|k: int| 0 <= k < spans.len() ==> spec_line_of(
            #[trigger] lines[k],
            glyphs.subrange(spans[k].start as int, spans[k].end as int),
            params,
            k + 1 == spans.len(),
        ))
    } else {
        &&& lines.len() == keep
        &&& (forall|k: int| 0 <= k < keep - 1 ==> spec_line_of(
            #[trigger] lines[k],
            glyphs.subrange(spans[k].start as int, spans[k].end as int),
            params,
            false,
        ))
        &&& ({
            let sp = spans[keep - 1];
            let last = lines[keep - 1];
            let e = sp.start + (last.glyphs@.len() - 1);
            &&& last.glyphs@.len() >= 1
            &&& sp.start <= e <= sp.end
            &&& (width_of(glyphs, sp.start as int, e) + ellipsis.advance <= params.max_width
                || e == sp.start)
            &&& (e < sp.end ==> width_of(glyphs, sp.start as int, e + 1) + ellipsis.advance
                > params.max_width)
            &&& spec_line_of(
                last,
                glyphs.subrange(sp.start as int, e).push(ellipsis),
                params,
                true,
            )
        })
    }
}

/// What a finished line is, given the logical glyphs it was made from: the
/// placement of their visual order at the line's alignment offset, with the
/// justification extras counted on the logical sequence and consumed at the
/// visual boundaries between words, carrying the line metrics of the visual
/// sequence.
pub open spec fn spec_line_of(
    line: LayoutLine,
    piece: Seq<ShapedGlyph>,
    params: LayoutParams,
    is_last: bool,
) -> bool {
    let visual = glyph_visual_of(piece);
    let lw = width_of(visual, 0, visual.len() as int);
    let stretched = spec_stretched(params, piece, is_last);
    let extras = spec_line_extras(params, piece, lw, is_last);
    let offset = spec_line_offset(params, lw, stretched);
    &&& line.glyphs@.len() == piece.len()
    &&& (forall|v: int| 0 <= v < visual.len() ==> #[trigger] line.glyphs@[v] == spec_layout_glyph(
        visual,
        extras,
        offset,
        v,
    ))
    &&& line.w == lw + sum_extras(
        extras,
        crate::place::consumed_extras(visual, extras, visual.len() as int),
    )
    &&& line.max_ascent == max_ascent_of(visual, visual.len() as int)
    &&& line.max_descent == max_descent_of(visual, visual.len() as int)
    &&& line.line_height_opt == line_height_of(visual, visual.len() as int)
}

/// A start-ellipsized line: the ellipsis glyph followed by the longest
/// suffix of the paragraph that fits beside it (everything dropped when
/// nothing fits), finished as the paragraph's single line.
pub open spec fn spec_start_line(
    line: LayoutLine,
    glyphs: Seq<ShapedGlyph>,
    params: LayoutParams,
    ellipsis: ShapedGlyph,
) -> bool {
    let n = glyphs.len() as int;
    let s = n - (line.glyphs@.len() - 1);
    &&& line.glyphs@.len() >= 1
    &&& 0 <= s <= n
    &&& (width_of(glyphs, s, n) + ellipsis.advance <= params.max_width || s == n)
    &&& (s > 0 ==> width_of(glyphs, s - 1, n) + ellipsis.advance > params.max_width)
    &&& spec_line_of(line, seq![ellipsis] + glyphs.subrange(s, n), params, true)
}

/// A middle-ellipsized line: the kept prefix, the ellipsis glyph, then the
/// kept suffix, where the drop point follows the alternating later-side-
/// first schedule and the number of drops is minimal.
pub open spec fn spec_middle_line(
    line: LayoutLine,
    glyphs: Seq<ShapedGlyph>,
    params: LayoutParams,
    ellipsis: ShapedGlyph,
) -> bool {
    exists|p: int, q: int|
        {
            let n = glyphs.len() as int;
            let d = (crate::ellipsize::mid_of(n) - p) + (q - crate::ellipsize::mid_of(n));
            &&& 0 <= p <= crate::ellipsize::mid_of(n)
            &&& crate::ellipsize::mid_of(n) <= q <= n
            &&& crate::ellipsize::drop_state(n, d) == (p, q)
            &&& (#[trigger] crate::ellipsize::kept_width(glyphs, p, q) + ellipsis.advance
                <= params.max_width || (p == 0 && q == n))
            &&& (d > 0 ==> {
                let prev = crate::ellipsize::drop_state(n, d - 1);
                crate::ellipsize::kept_width(glyphs, prev.0, prev.1) + ellipsis.advance
                    > params.max_width
            })
            &&& spec_line_of(
                line,
                glyphs.subrange(0, p) + seq![ellipsis] + glyphs.subrange(q, n),
                params,
                true,
            )
        }
}

/// Finishes one line: reorders it into visual order, aligns or justifies
/// it, and places its glyphs. The result is exactly the placement of the
/// visually ordered glyphs at the line's alignment offset with its
/// justification extras.
fn finish_line(line: Vec<ShapedGlyph>, params: LayoutParams, is_last: bool) -> (r: LayoutLine)
    requires
        wf_glyphs(line@),
        width_of(line@, 0, line@.len() as int) <= 2 * MAX_DIM,
        wf_params(params),
    ensures
        spec_line_of(r, line@, params, is_last),
        wf_layout_line(r),
{
    let ghost input = line@;
    let n = line.len();

    // the line's own width, measured logically and preserved by reordering
    let mut lw: i64 = 0;
    let mut i: usize = 0;
    proof {
        lemma_width_bounds(line@, 0, n as int);
    }
    while i < n
        invariant
            wf_glyphs(line@),
            line@ == input,
            n == line@.len(),
            0 <= i <= n,
            lw == width_of(line@, 0, i as int),
            0 <= lw <= i * MAX_DIM,
        decreases n - i,
    {
        proof {
            lemma_width_unfold_back(line@, 0, i as int + 1);
        }
        lw = lw + line[i].advance;
        i = i + 1;
    }

    // gaps and extras are counted on the logical sequence, so a line of a
    // single word is never stretched, whatever its direction
    let g = count_gaps(&line);
    let stretched = match params.align {
        Align::Justified => g > 0 && (params.justify_last_line || !is_last),
        _ => false,
    };
    let extras: Vec<i64> = if stretched {
        let ex = justify_gaps(&line, lw, params.max_width);
        proof {
            assert(ex@ =~= spec_justify_extras(input, lw as int, params.max_width as int));
        }
        ex
    } else {
        let ex = zero_extras(g);
        proof {
            assert(ex@ =~= Seq::new(gap_count(input, input.len() as int) as nat, |k: int| 0i64));
        }
        ex
    };

    let visual = reorder_glyphs(line);
    proof {
        assert(width_of(visual@, 0, visual@.len() as int) == lw);
    }
    let offset: i64 = if stretched {
        0
    } else if match params.align {
        Align::Justified => true,
        _ => false,
    } {
        if params.rtl {
            align_offset(Align::Right, lw, params.max_width, params.rtl)
        } else {
            align_offset(Align::Left, lw, params.max_width, params.rtl)
        }
    } else {
        align_offset(params.align, lw, params.max_width, params.rtl)
    };
    proof {
        assert(offset == spec_line_offset(
            params,
            lw as int,
            spec_stretched(params, input, is_last),
        ));
        crate::place::lemma_sum_extras_bounds(extras@, 0, extras@.len() as int);
        if stretched {
            assert(sum_extras(extras@, extras@.len() as int) <= params.max_width);
        }
        assert(-MAX_POS <= offset);
        assert(offset + width_of(visual@, 0, visual@.len() as int) + sum_extras(
            extras@,
            extras@.len() as int,
        ) <= MAX_POS);
    }
    let r = place_line(&visual, offset, &extras);
    proof {
        crate::place::lemma_consumed_monotone(
            visual@,
            extras@,
            visual@.len() as int,
            visual@.len() as int,
        );
        crate::place::lemma_sum_extras_bounds(
            extras@,
            0,
            crate::place::consumed_extras(visual@, extras@, visual@.len() as int),
        );
    }
    r
}

/// Total number of glyph records across the finished lines.
pub open spec fn total_glyphs(lines: Seq<LayoutLine>) -> int
    decreases lines.len(),
{
    if lines.len() == 0 {
        0
    } else {
        total_glyphs(lines.drop_last()) + lines.last().glyphs@.len()
    }
}

/// Finishes the lines for the first `upto` spans of a covering, in order.
/// When `last_at_upto` is set, the line of span `upto - 1` counts as the
/// paragraph's last line (for the justification exemption).
fn lines_for_spans(
    glyphs: &Vec<ShapedGlyph>,
    spans: &Vec<LineSpan>,
    upto: usize,
    last_at_upto: bool,
    params: LayoutParams,
) -> (lines: Vec<LayoutLine>)
    requires
        wf_glyphs(glyphs@),
        wf_params(params),
        width_of(glyphs@, 0, glyphs@.len() as int) <= MAX_DIM,
        spans_cover(spans@, glyphs@.len() as int),
        upto <= spans@.len(),
    ensures
        lines@.len() == upto,
        forall|k: int| 0 <= k < upto ==> wf_layout_line(#[trigger] lines@[k]),
        forall|k: int| 0 <= k < upto ==> spec_line_of(
            #[trigger] lines@[k],
            glyphs@.subrange(spans@[k].start as int, spans@[k].end as int),
            params,
            last_at_upto && k + 1 == upto,
        ),
        total_glyphs(lines@) == if upto == 0 {
            0int
        } else {
            spans@[upto - 1].end as int
        },
{
    let n = glyphs.len();
    let ghost total_w = width_of(glyphs@, 0, n as int);
    let mut lines: Vec<LayoutLine> = Vec::new();
    let mut i: usize = 0;
    while i < upto
        invariant
            wf_glyphs(glyphs@),
            wf_params(params),
            n == glyphs@.len(),
            total_w == width_of(glyphs@, 0, n as int),
            total_w <= MAX_DIM,
            spans_cover(spans@, n as int),
            upto <= spans@.len(),
            0 <= i <= upto,
            lines@.len() == i,
            forall|k: int| 0 <= k < i ==> wf_layout_line(#[trigger] lines@[k]),
            forall|k: int| 0 <= k < i ==> spec_line_of(
                #[trigger] lines@[k],
                glyphs@.subrange(spans@[k].start as int, spans@[k].end as int),
                params,
                last_at_upto && k + 1 == upto,
            ),
            total_glyphs(lines@) == if i == 0 {
                0int
            } else {
                spans@[i - 1].end as int
            },
        decreases upto - i,
    {
        let sp = spans[i];
        let piece = copy_range(glyphs, sp.start, sp.end);
        proof {
            lemma_width_split(glyphs@, 0, sp.start as int, n as int);
            lemma_width_split(glyphs@, sp.start as int, sp.end as int, n as int);
            lemma_width_bounds(glyphs@, 0, sp.start as int);
            lemma_width_bounds(glyphs@, sp.end as int, n as int);
            crate::width::lemma_width_congruent(
                piece@,
                0,
                glyphs@,
                sp.start as int,
                sp.end as int - sp.start as int,
            );
        }
        let done = finish_line(piece, params, last_at_upto && i + 1 == upto);
        let ghost prev = lines@;
        lines.push(done);
        proof {
            assert(lines@.drop_last() =~= prev);
            assert(lines@.last() == done);
            assert(done.glyphs@.len() == sp.end - sp.start);
            if i > 0 {
                assert(spans@[i as int].start == spans@[i as int - 1].end);
            }
        }
        i = i + 1;
    }
    lines
}

/// The single line of a start-ellipsized paragraph: the ellipsis glyph
/// followed by the longest fitting suffix of the paragraph.
fn start_ellipsis_line(
    glyphs: &Vec<ShapedGlyph>,
    params: LayoutParams,
    ellipsis: ShapedGlyph,
) -> (r: LayoutLine)
    requires
        wf_glyphs(glyphs@),
        glyphs@.len() + 1 <= MAX_GLYPHS,
        wf_params(params),
        wf_glyph(ellipsis),
        width_of(glyphs@, 0, glyphs@.len() as int) <= MAX_DIM,
    ensures
        wf_layout_line(r),
        spec_start_line(r, glyphs@, params, ellipsis),
{
    let n = glyphs.len();
    let s = ellipsize_start(glyphs, params.max_width, ellipsis.advance);
    let mut piece: Vec<ShapedGlyph> = Vec::new();
    piece.push(ellipsis);
    let mut i: usize = s;
    while i < n
        invariant
            wf_glyphs(glyphs@),
            wf_glyph(ellipsis),
            n == glyphs@.len(),
            s <= i <= n,
            piece@.len() == 1 + i - s,
            piece@[0] == ellipsis,
            forall|k: int| 1 <= k < piece@.len() ==> #[trigger] piece@[k] == glyphs@[s + k - 1],
        decreases n - i,
    {
        piece.push(glyphs[i]);
        i = i + 1;
    }
    proof {
        lemma_width_split(glyphs@, 0, s as int, n as int);
        lemma_width_bounds(glyphs@, 0, s as int);
        crate::width::lemma_width_congruent(piece@, 1, glyphs@, s as int, n - s as int);
        assert(width_of(piece@, 0, piece@.len() as int) == ellipsis.advance + width_of(
            piece@,
            1,
            piece@.len() as int,
        ));
        assert forall|k: int| 0 <= k < piece@.len() implies wf_glyph(#[trigger] piece@[k]) by {
            if k >= 1 {
                assert(piece@[k] == glyphs@[s + k - 1]);
            }
        }
        assert(piece@ =~= seq![ellipsis] + glyphs@.subrange(s as int, n as int));
    }
    finish_line(piece, params, true)
}

/// The single line of a middle-ellipsized paragraph: the kept prefix, the
/// ellipsis glyph, then the kept suffix.
fn middle_ellipsis_line(
    glyphs: &Vec<ShapedGlyph>,
    params: LayoutParams,
    ellipsis: ShapedGlyph,
) -> (r: LayoutLine)
    requires
        wf_glyphs(glyphs@),
        glyphs@.len() + 1 <= MAX_GLYPHS,
        wf_params(params),
        wf_glyph(ellipsis),
        width_of(glyphs@, 0, glyphs@.len() as int) <= MAX_DIM,
    ensures
        wf_layout_line(r),
        spec_middle_line(r, glyphs@, params, ellipsis),
{
    let n = glyphs.len();
    let (p, q) = ellipsize_middle(glyphs, params.max_width, ellipsis.advance);
    let mut piece = copy_range(glyphs, 0, p);
    piece.push(ellipsis);
    let ghost head = piece@;
    let mut i: usize = q;
    while i < n
        invariant
            wf_glyphs(glyphs@),
            wf_glyph(ellipsis),
            n == glyphs@.len(),
            q <= i <= n,
            head.len() == p + 1,
            piece@.len() == head.len() + i - q,
            forall|k: int| 0 <= k < head.len() ==> #[trigger] piece@[k] == head[k],
            forall|k: int| head.len() <= k < piece@.len() ==> #[trigger] piece@[k] == glyphs@[q + (
            k - head.len())],
        decreases n - i,
    {
        piece.push(glyphs[i]);
        i = i + 1;
    }
    proof {
        let m = piece@.len() as int;
        lemma_width_split(glyphs@, 0, p as int, n as int);
        lemma_width_split(glyphs@, p as int, q as int, n as int);
        lemma_width_bounds(glyphs@, 0, p as int);
        lemma_width_bounds(glyphs@, p as int, q as int);
        lemma_width_bounds(glyphs@, q as int, n as int);
        crate::width::lemma_width_congruent(piece@, 0, glyphs@, 0, p as int);
        crate::width::lemma_width_congruent(
            piece@,
            p as int + 1,
            glyphs@,
            q as int,
            n - q as int,
        );
        lemma_width_split(piece@, 0, p as int, m);
        lemma_width_split(piece@, p as int, p as int + 1, m);
        assert(width_of(piece@, p as int, p as int + 1) == piece@[p as int].advance + width_of(
            piece@,
            p as int + 1,
            p as int + 1,
        ));
        assert forall|k: int| 0 <= k < piece@.len() implies wf_glyph(#[trigger] piece@[k]) by {
            if k < p {
                assert(piece@[k] == head[k]);
                assert(head[k] == glyphs@[k]);
            } else if k == p {
                assert(piece@[k] == head[k]);
            } else {
                assert(piece@[k] == glyphs@[q + (k - (p + 1))]);
            }
        }
        assert(piece@ =~= glyphs@.subrange(0, p as int) + seq![ellipsis] + glyphs@.subrange(
            q as int,
            n as int,
        ));
    }
    finish_line(piece, params, true)
}

/// The last kept line of an end-ellipsized paragraph: the longest fitting
/// prefix of its span, with the ellipsis glyph appended.
fn end_ellipsis_line(
    glyphs: &Vec<ShapedGlyph>,
    sp: LineSpan,
    params: LayoutParams,
    ellipsis: ShapedGlyph,
) -> (r: LayoutLine)
    requires
        wf_glyphs(glyphs@),
        glyphs@.len() + 1 <= MAX_GLYPHS,
        wf_params(params),
        wf_glyph(ellipsis),
        width_of(glyphs@, 0, glyphs@.len() as int) <= MAX_DIM,
        sp.start <= sp.end <= glyphs@.len(),
    ensures
        wf_layout_line(r),
        r.glyphs@.len() >= 1,
        ({
            let e = sp.start + (r.glyphs@.len() - 1);
            &&& sp.start <= e <= sp.end
            &&& (width_of(glyphs@, sp.start as int, e) + ellipsis.advance <= params.max_width
                || e == sp.start)
            &&& (e < sp.end ==> width_of(glyphs@, sp.start as int, e + 1) + ellipsis.advance
                > params.max_width)
            &&& spec_line_of(
                r,
                glyphs@.subrange(sp.start as int, e).push(ellipsis),
                params,
                true,
            )
        }),
{
    let n = glyphs.len();
    let e = ellipsize_end_line(glyphs, sp, params.max_width, ellipsis.advance);
    let mut piece = copy_range(glyphs, sp.start, e);
    piece.push(ellipsis);
    proof {
        let m = piece@.len() as int;
        lemma_width_split(glyphs@, 0, sp.start as int, n as int);
        lemma_width_split(glyphs@, sp.start as int, e as int, n as int);
        lemma_width_bounds(glyphs@, 0, sp.start as int);
        lemma_width_bounds(glyphs@, e as int, n as int);
        crate::width::lemma_width_congruent(
            piece@,
            0,
            glyphs@,
            sp.start as int,
            e as int - sp.start as int,
        );
        lemma_width_unfold_back(piece@, 0, m);
        assert forall|k: int| 0 <= k < piece@.len() implies wf_glyph(#[trigger] piece@[k]) by {
            if k < e - sp.start {
                assert(piece@[k] == glyphs@[sp.start + k]);
            }
        }
        assert(piece@ =~= glyphs@.subrange(sp.start as int, e as int).push(ellipsis));
    }
    finish_line(piece, params, true)
}

/// Lays out a paragraph of shaped glyphs: breaks it into lines under the
/// wrap policy, limits the line count and splices the caller-shaped
/// ellipsis glyph per the ellipsize policy, reorders each kept line into
/// visual order, aligns or justifies it, and places its glyphs.
///
/// Always yields at least one line (an empty paragraph yields one empty
/// line). With no ellipsizing every input glyph appears in exactly one
/// line, and `Wrap::NoWrap` yields exactly one line.
pub fn layout(glyphs: &Vec<ShapedGlyph>, params: LayoutParams, ellipsis: ShapedGlyph) -> (r: Vec<
    LayoutLine,
>)
    requires
        wf_glyphs(glyphs@),
        glyphs@.len() + 1 <= MAX_GLYPHS,
        width_of(glyphs@, 0, glyphs@.len() as int) <= MAX_DIM,
        wf_glyph(ellipsis),
        wf_params(params),
    ensures
        r@.len() >= 1,
        forall|i: int| 0 <= i < r@.len() ==> wf_layout_line(#[trigger] r@[i]),
        params.ellipsize == Ellipsize::NoEllipsis ==> total_glyphs(r@) == glyphs@.len(),
        params.ellipsize == Ellipsize::NoEllipsis ==> exists|spans: Seq<LineSpan>|
            {
                &&& #[trigger] spans_obey(glyphs@, params.wrap, params.max_width as int, spans)
                &&& r@.len() == spans.len()
                &&& (forall|k: int| 0 <= k < spans.len() ==> spec_line_of(
                    #[trigger] r@[k],
                    glyphs@.subrange(spans[k].start as int, spans[k].end as int),
                    params,
                    k + 1 == spans.len(),
                ))
            },
        (forall|limit: HeightLimit|
            params.ellipsize == Ellipsize::End(limit) ==> exists|spans: Seq<LineSpan>, keep: int|
                #[trigger] spec_end_layout(r@, glyphs@, params, limit, ellipsis, spans, keep)),
        params.wrap == Wrap::NoWrap && params.ellipsize == Ellipsize::NoEllipsis ==> r@.len()
            == 1,
        params.ellipsize == Ellipsize::Start || params.ellipsize == Ellipsize::Middle ==> r@.len()
            == 1,
        params.ellipsize == Ellipsize::Start ==> exists|spans: Seq<LineSpan>|
            #[trigger] spans_obey(glyphs@, params.wrap, params.max_width as int, spans) && if spans.len()
                <= 1 {
                spec_line_of(r@[0], glyphs@, params, true)
            } else {
                spec_start_line(r@[0], glyphs@, params, ellipsis)
            },
        params.ellipsize == Ellipsize::Middle ==> exists|spans: Seq<LineSpan>|
            #[trigger] spans_obey(glyphs@, params.wrap, params.max_width as int, spans) && if spans.len()
                <= 1 {
                spec_line_of(r@[0], glyphs@, params, true)
            } else {
                spec_middle_line(r@[0], glyphs@, params, ellipsis)
            },
        params.wrap == Wrap::NoWrap && (params.ellipsize == Ellipsize::Start || params.ellipsize
            == Ellipsize::Middle) ==> spec_line_of(r@[0], glyphs@, params, true),
        params.ellipsize == Ellipsize::End(HeightLimit::Default) ==> r@.len() == 1,
        (forall|n: u8| params.ellipsize == Ellipsize::End(HeightLimit::Lines(n)) ==> r@.len()
            <= if n == 0 {
                1int
            } else {
                n as int
            }),
{
    let n = glyphs.len();
    let spans = break_lines(glyphs, params.wrap, params.max_width);
    proof {
        if n > 0 {
            crate::wrap::lemma_spans_count(spans@, n as int);
        }
    }
    let count = spans.len();
    let mut lines: Vec<LayoutLine> = Vec::new();

    match params.ellipsize {
        Ellipsize::NoEllipsis => {
            lines = lines_for_spans(glyphs, &spans, count, true, params);
            proof {
                assert(spans@[count as int - 1].end == n);
                assert(spans_obey(glyphs@, params.wrap, params.max_width as int, spans@));
            }
        },
        Ellipsize::Start => {
            if count <= 1 {
                lines = lines_for_spans(glyphs, &spans, count, true, params);
                proof {
                    assert(glyphs@.subrange(spans@[0].start as int, spans@[0].end as int)
                        =~= glyphs@);
                    assert(spans_obey(glyphs@, params.wrap, params.max_width as int, spans@));
                }
            } else {
                let done = start_ellipsis_line(glyphs, params, ellipsis);
                lines.push(done);
                proof {
                    assert(spans_obey(glyphs@, params.wrap, params.max_width as int, spans@));
                }
            }
        },
        Ellipsize::Middle => {
            if count <= 1 {
                lines = lines_for_spans(glyphs, &spans, count, true, params);
                proof {
                    assert(glyphs@.subrange(spans@[0].start as int, spans@[0].end as int)
                        =~= glyphs@);
                    assert(spans_obey(glyphs@, params.wrap, params.max_width as int, spans@));
                }
            } else {
                let done = middle_ellipsis_line(glyphs, params, ellipsis);
                lines.push(done);
                proof {
                    assert(spans_obey(glyphs@, params.wrap, params.max_width as int, spans@));
                }
            }
        },
        Ellipsize::End(limit) => {
            // per-line heights, for resolving a `Height` limit
            let mut heights: Vec<i64> = Vec::new();
            let mut i: usize = 0;
            while i < count
                invariant
                    wf_glyphs(glyphs@),
                    n == glyphs@.len(),
                    count == spans@.len(),
                    count <= MAX_GLYPHS,
                    spans_cover(spans@, n as int),
                    0 <= i <= count,
                    heights@.len() == i,
                    forall|k: int| 0 <= k < i ==> 0 <= #[trigger] heights@[k] <= MAX_LINE_HEIGHT,
                    forall|k: int| 0 <= k < i ==> #[trigger] heights@[k] == range_height(
                        glyphs@,
                        spans@[k].start as int,
                        spans@[k].end as int,
                    ),
                decreases count - i,
            {
                let h = span_height(glyphs, spans[i]);
                heights.push(h);
                i = i + 1;
            }
            let keep = resolve_height_limit(limit, &heights, params.available_height);
            proof {
                assert(heights@ =~= spec_span_heights(glyphs@, spans@));
            }
            if count <= keep {
                // the limit is not exceeded: ellipsizing is a no-op
                lines = lines_for_spans(glyphs, &spans, count, true, params);
                proof {
                    assert(spec_end_layout(
                        lines@,
                        glyphs@,
                        params,
                        limit,
                        ellipsis,
                        spans@,
                        keep as int,
                    ));
                }
            } else {
                lines = lines_for_spans(glyphs, &spans, keep - 1, false, params);
                let done = end_ellipsis_line(glyphs, spans[keep - 1], params, ellipsis);
                let ghost prefix = lines@;
                lines.push(done);
                proof {
                    assert(forall|k: int| 0 <= k < keep - 1 ==> #[trigger] lines@[k]
                        == prefix[k]);
                    assert(lines@[keep as int - 1] == done);
                    assert(spec_end_layout(
                        lines@,
                        glyphs@,
                        params,
                        limit,
                        ellipsis,
                        spans@,
                        keep as int,
                    ));
                }
            }
        },
    }
    lines
}


/// Glyph-wrap progress at the level of the whole pass: with glyph
/// wrapping, no ellipsizing, and a non-empty paragraph in which every
/// glyph's advance alone exceeds the line width, the pass still yields
/// exactly one line per glyph, line `i` carrying glyph `i`'s cluster,
/// identity, and advance. (Ellipsizing may cut the line count, and an
/// empty paragraph yields one line, so those cases are left out.)
pub proof fn lemma_glyph_wrap_progress_layout(
    glyphs: Seq<ShapedGlyph>,
    params: LayoutParams,
    r: Seq<LayoutLine>,
)
    requires
        wf_glyphs(glyphs),
        glyphs.len() > 0,
        0 <= params.max_width,
        params.wrap == Wrap::Glyph,
        params.ellipsize == Ellipsize::NoEllipsis,
        forall|i: int| 0 <= i < glyphs.len() ==> (#[trigger] glyphs[i]).advance
            > params.max_width,
        exists|spans: Seq<LineSpan>|
            {
                &&& #[trigger] spans_obey(glyphs, params.wrap, params.max_width as int, spans)
                &&& r.len() == spans.len()
                &&& (forall|k: int| 0 <= k < spans.len() ==> spec_line_of(
                    #[trigger] r[k],
                    glyphs.subrange(spans[k].start as int, spans[k].end as int),
                    params,
                    k + 1 == spans.len(),
                ))
            },
    ensures
        r.len() == glyphs.len(),
        forall|i: int| 0 <= i < r.len() ==> (#[trigger] r[i]).glyphs@.len() == 1,
        forall|i: int| 0 <= i < r.len() ==> {
            let g = (#[trigger] r[i]).glyphs@[0];
            &&& g.start == glyphs[i].start
            &&& g.end == glyphs[i].end
            &&& g.font_id == glyphs[i].font_id
            &&& g.glyph_id == glyphs[i].glyph_id
            &&& g.w == glyphs[i].advance
        },
{
    let spans = choose|spans: Seq<LineSpan>|
        {
            &&& #[trigger] spans_obey(glyphs, params.wrap, params.max_width as int, spans)
            &&& r.len() == spans.len()
            &&& (forall|k: int| 0 <= k < spans.len() ==> spec_line_of(
                #[trigger] r[k],
                glyphs.subrange(spans[k].start as int, spans[k].end as int),
                params,
                k + 1 == spans.len(),
            ))
        };
    crate::wrap::lemma_glyph_wrap_progress(glyphs, params.max_width as int, spans);
    assert forall|i: int| 0 <= i < r.len() implies (#[trigger] r[i]).glyphs@.len() == 1 && {
        let g = r[i].glyphs@[0];
        &&& g.start == glyphs[i].start
        &&& g.end == glyphs[i].end
        &&& g.font_id == glyphs[i].font_id
        &&& g.glyph_id == glyphs[i].glyph_id
        &&& g.w == glyphs[i].advance
    } by {
        assert(spans[i].start == i && spans[i].end == i + 1);
        let piece = glyphs.subrange(i, i + 1);
        assert(spec_line_of(r[i], piece, params, i + 1 == spans.len()));
        assert(piece.len() == 1);
        assert(piece[0] == glyphs[i]);
        crate::bidi::lemma_single_glyph_visual(piece);
        assert(r[i].glyphs@[0] == crate::place::spec_layout_glyph(
            piece,
            spec_line_extras(
                params,
                piece,
                width_of(piece, 0, 1),
                i + 1 == spans.len(),
            ),
            spec_line_offset(
                params,
                width_of(piece, 0, 1),
                spec_stretched(params, piece, i + 1 == spans.len()),
            ),
            0,
        ));
    }
}

/// Justify neutrality: a line holding a single word (no inter-word gaps
/// in its logical sequence, whatever its direction or word-start flags) is
/// never stretched, so under `Align::Justified` it starts at the same
/// offset as under the base alignment (`Align::Left` for a left-to-right
/// paragraph, `Align::Right` for a right-to-left one), receives the same
/// (empty) extras, and is therefore placed glyph-for-glyph identically.
pub proof fn lemma_justify_single_word(
    params_j: LayoutParams,
    params_b: LayoutParams,
    piece: Seq<ShapedGlyph>,
    line_width: int,
    is_last: bool,
)
    requires
        params_j.align == Align::Justified,
        params_b.align == if params_j.rtl {
            Align::Right
        } else {
            Align::Left
        },
        params_j.max_width == params_b.max_width,
        params_j.rtl == params_b.rtl,
        gap_count(piece, piece.len() as int) == 0,
    ensures
        !spec_stretched(params_j, piece, is_last),
        spec_line_offset(params_j, line_width, spec_stretched(params_j, piece, is_last))
            == spec_line_offset(params_b, line_width, spec_stretched(params_b, piece, is_last)),
        spec_line_extras(params_j, piece, line_width, is_last) == spec_line_extras(
            params_b,
            piece,
            line_width,
            is_last,
        ),
        forall|v: int| 0 <= v < glyph_visual_of(piece).len() ==> spec_layout_glyph(
            glyph_visual_of(piece),
            spec_line_extras(params_j, piece, line_width, is_last),
            spec_line_offset(params_j, line_width, spec_stretched(params_j, piece, is_last)),
            v,
        ) == spec_layout_glyph(
            glyph_visual_of(piece),
            spec_line_extras(params_b, piece, line_width, is_last),
            spec_line_offset(params_b, line_width, spec_stretched(params_b, piece, is_last)),
            v,
        ),
{
    assert(spec_line_extras(params_j, piece, line_width, is_last) =~= spec_line_extras(
        params_b,
        piece,
        line_width,
        is_last,
    ));
}

} // verus!
