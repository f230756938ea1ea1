//! Line breaker: partitions a paragraph of shaped glyphs into candidate
//! line-spans under a wrap policy, respecting the available width.
//!
//! The scan is a single forward pass. Every mode covers the whole input:
//! the produced spans are contiguous, start at glyph 0 and end at the last
//! glyph, so no glyph is dropped here (truncation is the ellipsizer's job).

use vstd::prelude::*;

use crate::model::{LineSpan, ShapedGlyph, Wrap, MAX_DIM, wf_glyphs};
use crate::width::{lemma_width_bounds, lemma_width_split, lemma_width_unfold_back, width_of};

verus! {

/// The spans partition `0..n` in order: at least one span, contiguous,
/// starting at 0 and ending at n, and no span is empty unless the whole
/// input is empty (an empty paragraph yields exactly one empty line).
pub open spec fn spans_cover(spans: Seq<LineSpan>, n: int) -> bool {
    &&& spans.len() >= 1
    &&& spans[0].start == 0
    &&& spans[spans.len() - 1].end == n
    &&& forall|i: int| 0 <= i < spans.len() - 1 ==> (#[trigger] spans[i]).end == spans[i + 1].start
    &&& forall|i: int| 0 <= i < spans.len() ==> (#[trigger] spans[i]).start <= spans[i].end <= n
    &&& (n > 0 ==> forall|i: int| 0 <= i < spans.len() ==> (#[trigger] spans[i]).start < spans[i].end)
}

/// Index of the first glyph after `i` that starts a new word, or the length
/// of the paragraph when no later glyph does. The word beginning at `i`
/// occupies `i..next_word(glyphs, i)`.
pub open spec fn next_word(glyphs: Seq<ShapedGlyph>, i: int) -> int
    decreases glyphs.len() - i,
{
    if i + 1 >= glyphs.len() {
        glyphs.len() as int
    } else if glyphs[i + 1].word_start {
        i + 1
    } else {
        next_word(glyphs, i + 1)
    }
}

/// `j` is the end of the word beginning at `i` exactly when `j` is the next
/// word start (or the end of the paragraph) and no glyph strictly between
/// starts a word.
pub proof fn lemma_next_word_char(glyphs: Seq<ShapedGlyph>, i: int, j: int)
    requires
        0 <= i < j <= glyphs.len(),
        j == glyphs.len() || glyphs[j].word_start,
        forall|k: int| i < k < j ==> !(#[trigger] glyphs[k]).word_start,
    ensures
        next_word(glyphs, i) == j,
    decreases j - i,
{
    if i + 1 < j {
        assert(!glyphs[i + 1].word_start);
        lemma_next_word_char(glyphs, i + 1, j);
    }
}

/// One glyph-wrapped span: it fits in the width unless it is a single
/// forced glyph, and it is maximal (the next glyph would overflow).
pub open spec fn glyph_span_ok(glyphs: Seq<ShapedGlyph>, max_width: int, sp: LineSpan) -> bool {
    let s = sp.start as int;
    let e = sp.end as int;
    &&& (e - s >= 2 ==> width_of(glyphs, s, e) <= max_width)
    &&& (e < glyphs.len() ==> width_of(glyphs, s, e) + glyphs[e].advance > max_width)
}

/// Every span satisfies the glyph-wrapping discipline.
pub open spec fn glyph_spans_ok(glyphs: Seq<ShapedGlyph>, max_width: int, spans: Seq<LineSpan>) -> bool {
    forall|i: int| 0 <= i < spans.len() ==> glyph_span_ok(glyphs, max_width, #[trigger] spans[i])
}

/// One word-wrapped span: it begins and ends at word boundaries, it is
/// maximal (the next whole word would overflow), and when it overflows the
/// width it consists of a single word (no fallback in plain word mode).
pub open spec fn word_span_ok(glyphs: Seq<ShapedGlyph>, max_width: int, sp: LineSpan) -> bool {
    let s = sp.start as int;
    let e = sp.end as int;
    let w = width_of(glyphs, s, e);
    &&& (s == 0 || glyphs[s].word_start)
    &&& (e == glyphs.len() || glyphs[e].word_start)
    &&& (e < glyphs.len() && w <= max_width ==> width_of(glyphs, s, next_word(glyphs, e)) > max_width)
    &&& (w > max_width ==> forall|k: int| s < k < e ==> !(#[trigger] glyphs[k]).word_start)
}

/// Every span satisfies the word-wrapping discipline.
pub open spec fn word_spans_ok(glyphs: Seq<ShapedGlyph>, max_width: int, spans: Seq<LineSpan>) -> bool {
    forall|i: int| 0 <= i < spans.len() ==> word_span_ok(glyphs, max_width, #[trigger] spans[i])
}

/// One span under word wrapping with glyph fallback: it fits unless it is a
/// single forced glyph; a span that stops in the middle of a word does so
/// only because the next glyph would overflow, and holds glyphs of that one
/// word alone; a span that stops at a word boundary while fitting is maximal
/// (the next whole word would overflow).
pub open spec fn word_glyph_span_ok(glyphs: Seq<ShapedGlyph>, max_width: int, sp: LineSpan) -> bool {
    let s = sp.start as int;
    let e = sp.end as int;
    let w = width_of(glyphs, s, e);
    &&& (e - s >= 2 ==> w <= max_width)
    &&& (e < glyphs.len() && !glyphs[e].word_start ==> w + glyphs[e].advance > max_width
        && (forall|k: int| s < k < e ==> !(#[trigger] glyphs[k]).word_start))
    &&& (e < glyphs.len() && glyphs[e].word_start && w <= max_width
        ==> width_of(glyphs, s, next_word(glyphs, e)) > max_width)
}

/// Every span satisfies the word-with-glyph-fallback discipline.
pub open spec fn word_glyph_spans_ok(
    glyphs: Seq<ShapedGlyph>,
    max_width: int,
    spans: Seq<LineSpan>,
) -> bool {
    forall|i: int| 0 <= i < spans.len() ==> word_glyph_span_ok(glyphs, max_width, #[trigger] spans[i])
}

/// The spans are a legal breaking of the paragraph under the wrap mode:
/// they cover it, and each obeys the mode's discipline.
pub open spec fn spans_obey(
    glyphs: Seq<ShapedGlyph>,
    wrap: Wrap,
    max_width: int,
    spans: Seq<LineSpan>,
) -> bool {
    &&& spans_cover(spans, glyphs.len() as int)
    &&& (glyphs.len() == 0 ==> spans.len() == 1)
    &&& (wrap == Wrap::NoWrap ==> spans.len() == 1)
    &&& (wrap == Wrap::Glyph ==> glyph_spans_ok(glyphs, max_width, spans))
    &&& (wrap == Wrap::Word ==> word_spans_ok(glyphs, max_width, spans))
    &&& (wrap == Wrap::WordOrGlyph ==> word_glyph_spans_ok(glyphs, max_width, spans))
}

/// Breaks a paragraph of shaped glyphs into candidate lines.
///
/// An empty paragraph yields exactly one empty line-span, never zero. Width
/// overflow is permitted where the mode's discipline calls for it (a single
/// glyph or a single word wider than the line); truncation never happens
/// here.
pub fn break_lines(glyphs: &Vec<ShapedGlyph>, wrap: Wrap, max_width: i64) -> (spans: Vec<
    LineSpan,
>)
    requires
        wf_glyphs(glyphs@),
        0 <= max_width,
    ensures
        spans_obey(glyphs@, wrap, max_width as int, spans@),
        spans_cover(spans@, glyphs@.len() as int),
        glyphs@.len() == 0 ==> spans@.len() == 1,
        wrap == Wrap::NoWrap ==> spans@.len() == 1,
        wrap == Wrap::Glyph ==> glyph_spans_ok(glyphs@, max_width as int, spans@),
        wrap == Wrap::Word ==> word_spans_ok(glyphs@, max_width as int, spans@),
        wrap == Wrap::WordOrGlyph ==> word_glyph_spans_ok(glyphs@, max_width as int, spans@),
{
    match wrap {
        Wrap::NoWrap => {
            let mut spans: Vec<LineSpan> = Vec::new();
            spans.push(LineSpan { start: 0, end: glyphs.len() });
            spans
        },
        Wrap::Glyph => break_glyph(glyphs, max_width),
        Wrap::Word => break_word(glyphs, max_width),
        Wrap::WordOrGlyph => break_word_glyph(glyphs, max_width),
    }
}

/// Glyph-level breaking: break as late as possible so that the accumulated
/// advance stays within the width; a glyph too wide for an empty line is
/// forced onto its own line to guarantee progress.
fn break_glyph(glyphs: &Vec<ShapedGlyph>, max_width: i64) -> (spans: Vec<LineSpan>)
    requires
        wf_glyphs(glyphs@),
        0 <= max_width,
    ensures
        spans_cover(spans@, glyphs@.len() as int),
        glyphs@.len() == 0 ==> spans@.len() == 1,
        glyph_spans_ok(glyphs@, max_width as int, spans@),
{
    let n = glyphs.len();
    let mut spans: Vec<LineSpan> = Vec::new();
    if n == 0 {
        spans.push(LineSpan { start: 0, end: 0 });
        return spans;
    }
    let mut s: usize = 0;
    let mut i: usize = 0;
    let mut w: i64 = 0;
    while i < n
        invariant
            wf_glyphs(glyphs@),
            0 <= max_width,
            n == glyphs@.len(),
            0 < n,
            s <= i <= n,
            i > 0 ==> s < i,
            i == 0 ==> s == 0,
            w == width_of(glyphs@, s as int, i as int),
            0 <= w <= (i - s) * MAX_DIM,
            i - s >= 2 ==> w <= max_width,
            forall|k: int| 0 <= k < spans@.len() ==> glyph_span_ok(
                glyphs@,
                max_width as int,
                #[trigger] spans@[k],
            ),
            spans@.len() == 0 ==> s == 0,
            spans@.len() > 0 ==> spans@[0].start == 0 && spans@[spans@.len() - 1].end == s,
            forall|k: int| 0 <= k < spans@.len() - 1 ==> (#[trigger] spans@[k]).end == spans@[k
                + 1].start,
            forall|k: int| 0 <= k < spans@.len() ==> (#[trigger] spans@[k]).start < spans@[k].end
                <= s,
        decreases n - i,
    {
        let adv = glyphs[i].advance;
        if i > s && w + adv > max_width {
            spans.push(LineSpan { start: s, end: i });
            s = i;
            w = 0;
        }
        proof {
            lemma_width_unfold_back(glyphs@, s as int, i as int + 1);
        }
        w = w + adv;
        i = i + 1;
    }
    spans.push(LineSpan { start: s, end: n });
    spans
}

/// Word-level breaking: break only where a glyph starts a new word; when the
/// first word of a line overflows the width on its own, the whole word stays
/// on that line (no fallback).
fn break_word(glyphs: &Vec<ShapedGlyph>, max_width: i64) -> (spans: Vec<LineSpan>)
    requires
        wf_glyphs(glyphs@),
        0 <= max_width,
    ensures
        spans_cover(spans@, glyphs@.len() as int),
        glyphs@.len() == 0 ==> spans@.len() == 1,
        word_spans_ok(glyphs@, max_width as int, spans@),
{
    let n = glyphs.len();
    let mut spans: Vec<LineSpan> = Vec::new();
    if n == 0 {
        spans.push(LineSpan { start: 0, end: 0 });
        return spans;
    }
    let mut s: usize = 0;
    let mut i: usize = 0;
    let mut w: i64 = 0;
    while i < n
        invariant
            wf_glyphs(glyphs@),
            0 <= max_width,
            n == glyphs@.len(),
            0 < n,
            s <= i <= n,
            i > 0 ==> s < i,
            i == 0 ==> s == 0,
            i == 0 || i == n || glyphs@[i as int].word_start,
            s == 0 || glyphs@[s as int].word_start,
            w == width_of(glyphs@, s as int, i as int),
            0 <= w <= (i - s) * MAX_DIM,
            w > max_width ==> forall|k: int| s < k < i ==> !(#[trigger] glyphs@[k]).word_start,
            forall|k: int| 0 <= k < spans@.len() ==> word_span_ok(
                glyphs@,
                max_width as int,
                #[trigger] spans@[k],
            ),
            spans@.len() == 0 ==> s == 0,
            spans@.len() > 0 ==> spans@[0].start == 0 && spans@[spans@.len() - 1].end == s,
            forall|k: int| 0 <= k < spans@.len() - 1 ==> (#[trigger] spans@[k]).end == spans@[k
                + 1].start,
            forall|k: int| 0 <= k < spans@.len() ==> (#[trigger] spans@[k]).start < spans@[k].end
                <= s,
        decreases n - i,
    {
        // measure the word occupying `i..j`
        let mut j: usize = i + 1;
        let mut ww: i64 = glyphs[i].advance;
        proof {
            assert(width_of(glyphs@, i as int + 1, i as int + 1) == 0);
            assert(width_of(glyphs@, i as int, i as int + 1) == glyphs@[i as int].advance
                + width_of(glyphs@, i as int + 1, i as int + 1));
        }
        while j < n && !glyphs[j].word_start
            invariant
                wf_glyphs(glyphs@),
                n == glyphs@.len(),
                0 <= i < j <= n,
                ww == width_of(glyphs@, i as int, j as int),
                0 <= ww <= (j - i) * MAX_DIM,
                forall|k: int| i < k < j ==> !(#[trigger] glyphs@[k]).word_start,
            decreases n - j,
        {
            proof {
                lemma_width_unfold_back(glyphs@, i as int, j as int + 1);
            }
            ww = ww + glyphs[j].advance;
            j = j + 1;
        }
        proof {
            lemma_next_word_char(glyphs@, i as int, j as int);
        }
        if i > s && w + ww > max_width {
            proof {
                lemma_width_split(glyphs@, s as int, i as int, j as int);
            }
            spans.push(LineSpan { start: s, end: i });
            s = i;
            w = 0;
        }
        proof {
            lemma_width_split(glyphs@, s as int, i as int, j as int);
        }
        w = w + ww;
        i = j;
    }
    spans.push(LineSpan { start: s, end: n });
    spans
}

/// Word-level breaking with glyph fallback: as word wrapping, except that a
/// word too wide for a line of its own is split at the glyph level; the last
/// piece of such a word keeps accepting the following words while they fit.
fn break_word_glyph(glyphs: &Vec<ShapedGlyph>, max_width: i64) -> (spans: Vec<LineSpan>)
    requires
        wf_glyphs(glyphs@),
        0 <= max_width,
    ensures
        spans_cover(spans@, glyphs@.len() as int),
        glyphs@.len() == 0 ==> spans@.len() == 1,
        word_glyph_spans_ok(glyphs@, max_width as int, spans@),
{
    let n = glyphs.len();
    let mut spans: Vec<LineSpan> = Vec::new();
    if n == 0 {
        spans.push(LineSpan { start: 0, end: 0 });
        return spans;
    }
    let mut s: usize = 0;
    let mut i: usize = 0;
    let mut w: i64 = 0;
    while i < n
        invariant
            wf_glyphs(glyphs@),
            0 <= max_width,
            n == glyphs@.len(),
            0 < n,
            s <= i <= n,
            i > 0 ==> s < i,
            i == 0 ==> s == 0,
            i == 0 || i == n || glyphs@[i as int].word_start,
            w == width_of(glyphs@, s as int, i as int),
            0 <= w <= (i - s) * MAX_DIM,
            i - s >= 2 ==> w <= max_width,
            forall|k: int| 0 <= k < spans@.len() ==> word_glyph_span_ok(
                glyphs@,
                max_width as int,
                #[trigger] spans@[k],
            ),
            spans@.len() == 0 ==> s == 0,
            spans@.len() > 0 ==> spans@[0].start == 0 && spans@[spans@.len() - 1].end == s,
            forall|k: int| 0 <= k < spans@.len() - 1 ==> (#[trigger] spans@[k]).end == spans@[k
                + 1].start,
            forall|k: int| 0 <= k < spans@.len() ==> (#[trigger] spans@[k]).start < spans@[k].end
                <= s,
        decreases n - i,
    {
        // measure the word occupying `i..j`
        let mut j: usize = i + 1;
        let mut ww: i64 = glyphs[i].advance;
        proof {
            assert(width_of(glyphs@, i as int + 1, i as int + 1) == 0);
            assert(width_of(glyphs@, i as int, i as int + 1) == glyphs@[i as int].advance
                + width_of(glyphs@, i as int + 1, i as int + 1));
        }
        while j < n && !glyphs[j].word_start
            invariant
                wf_glyphs(glyphs@),
                n == glyphs@.len(),
                0 <= i < j <= n,
                ww == width_of(glyphs@, i as int, j as int),
                0 <= ww <= (j - i) * MAX_DIM,
                forall|k: int| i < k < j ==> !(#[trigger] glyphs@[k]).word_start,
            decreases n - j,
        {
            proof {
                lemma_width_unfold_back(glyphs@, i as int, j as int + 1);
            }
            ww = ww + glyphs[j].advance;
            j = j + 1;
        }
        proof {
            lemma_next_word_char(glyphs@, i as int, j as int);
        }
        if i > s && w + ww > max_width {
            proof {
                lemma_width_split(glyphs@, s as int, i as int, j as int);
            }
            spans.push(LineSpan { start: s, end: i });
            s = i;
            w = 0;
        }
        if i == s && ww > max_width {
            // the word alone overflows an empty line: fall back to glyph
            // breaking within `i..j` for this word only
            let mut cs: usize = i;
            let mut cw: i64 = 0;
            let mut k: usize = i;
            while k < j
                invariant
                    wf_glyphs(glyphs@),
                    0 <= max_width,
                    n == glyphs@.len(),
                    0 < n,
                    i <= cs <= k <= j <= n,
                    i < j,
                    k > i ==> cs < k,
                    k == i ==> cs == i,
                    i == 0 || glyphs@[i as int].word_start,
                    forall|m: int| i < m < j ==> !(#[trigger] glyphs@[m]).word_start,
                    cw == width_of(glyphs@, cs as int, k as int),
                    0 <= cw <= (k - cs) * MAX_DIM,
                    k - cs >= 2 ==> cw <= max_width,
                    forall|m: int| 0 <= m < spans@.len() ==> word_glyph_span_ok(
                        glyphs@,
                        max_width as int,
                        #[trigger] spans@[m],
                    ),
                    spans@.len() == 0 ==> cs == 0,
                    spans@.len() > 0 ==> spans@[0].start == 0 && spans@[spans@.len() - 1].end
                        == cs,
                    forall|m: int| 0 <= m < spans@.len() - 1 ==> (#[trigger] spans@[m]).end
                        == spans@[m + 1].start,
                    forall|m: int| 0 <= m < spans@.len() ==> (#[trigger] spans@[m]).start
                        < spans@[m].end <= cs,
                decreases j - k,
            {
                let adv = glyphs[k].advance;
                if k > cs && cw + adv > max_width {
                    spans.push(LineSpan { start: cs, end: k });
                    cs = k;
                    cw = 0;
                }
                proof {
                    lemma_width_unfold_back(glyphs@, cs as int, k as int + 1);
                }
                cw = cw + adv;
                k = k + 1;
            }
            s = cs;
            w = cw;
            i = j;
        } else {
            proof {
                lemma_width_split(glyphs@, s as int, i as int, j as int);
            }
            w = w + ww;
            i = j;
        }
    }
    spans.push(LineSpan { start: s, end: n });
    spans
}

/// Spans that partition the paragraph contiguously start exactly at their
/// index's worth of preceding spans' glyphs when every span holds one glyph.
proof fn lemma_unit_spans_start(spans: Seq<LineSpan>, i: int)
    requires
        spans.len() >= 1,
        spans[0].start == 0,
        forall|k: int| 0 <= k < spans.len() - 1 ==> (#[trigger] spans[k]).end == spans[k + 1].start,
        forall|k: int| 0 <= k < spans.len() ==> (#[trigger] spans[k]).end == spans[k].start + 1,
        0 <= i < spans.len(),
    ensures
        spans[i].start == i,
    decreases i,
{
    if i > 0 {
        lemma_unit_spans_start(spans, i - 1);
    }
}

/// Glyph-wrap progress: when every glyph's advance alone exceeds the
/// available width, glyph wrapping still terminates with exactly one line
/// per glyph, each span holding that single glyph.
pub proof fn lemma_glyph_wrap_progress(
    glyphs: Seq<ShapedGlyph>,
    max_width: int,
    spans: Seq<LineSpan>,
)
    requires
        wf_glyphs(glyphs),
        0 <= max_width,
        glyphs.len() > 0,
        forall|i: int| 0 <= i < glyphs.len() ==> (#[trigger] glyphs[i]).advance > max_width,
        spans_cover(spans, glyphs.len() as int),
        glyph_spans_ok(glyphs, max_width, spans),
    ensures
        spans.len() == glyphs.len(),
        forall|i: int| 0 <= i < spans.len() ==> (#[trigger] spans[i]).start == i && spans[i].end
            == i + 1,
{
    assert forall|i: int| 0 <= i < spans.len() implies (#[trigger] spans[i]).end == spans[i].start
        + 1 by {
        let s = spans[i].start as int;
        let e = spans[i].end as int;
        assert(s < e);
        if e - s >= 2 {
            assert(width_of(glyphs, s, e) <= max_width);
            lemma_width_bounds(glyphs, s + 1, e);
            assert(width_of(glyphs, s, e) == glyphs[s].advance + width_of(glyphs, s + 1, e));
            assert(false);
        }
    }
    assert forall|i: int| 0 <= i < spans.len() implies (#[trigger] spans[i]).start == i by {
        lemma_unit_spans_start(spans, i);
    }
    lemma_unit_spans_start(spans, spans.len() - 1);
    assert(spans[spans.len() - 1].end == spans.len());
}


/// In a covering of a non-empty paragraph, the spans' ends grow by at
/// least one glyph per span.
proof fn lemma_span_end_grows(spans: Seq<LineSpan>, n: int, i: int)
    requires
        spans_cover(spans, n),
        n > 0,
        0 <= i < spans.len(),
    ensures
        spans[i].end >= i + 1,
    decreases i,
{
    if i > 0 {
        lemma_span_end_grows(spans, n, i - 1);
        assert(spans[i - 1].end == spans[i].start);
    }
}

/// A covering of a non-empty paragraph has at most one span per glyph.
pub proof fn lemma_spans_count(spans: Seq<LineSpan>, n: int)
    requires
        spans_cover(spans, n),
        n > 0,
    ensures
        spans.len() <= n,
{
    lemma_span_end_grows(spans, n, spans.len() - 1);
}

} // verus!
