//! Aligner/justifier: computes the horizontal start offset of a finalized
//! line (left/right/center/end), or distributes the leftover width across
//! the line's inter-word gaps for justification.

use vstd::prelude::*;

use crate::model::{Align, ShapedGlyph, MAX_DIM, MAX_GLYPHS};
use vstd::arithmetic::div_mod::lemma_fundamental_div_mod;

verus! {

/// Half of a signed quantity, truncated toward zero.
pub open spec fn half_toward_zero(v: int) -> int {
    if v >= 0 {
        v / 2
    } else {
        -((-v) / 2)
    }
}

/// The horizontal start offset of a line of width `line_width` inside the
/// target width `max_width`. `End` resolves by the line's base direction: a
/// right-to-left line ends at the left edge. A justified line starts at the
/// left edge; its leftover width goes into the gaps instead.
pub open spec fn spec_align_offset(align: Align, line_width: int, max_width: int, rtl: bool) -> int {
    match align {
        Align::Left => 0,
        Align::Right => max_width - line_width,
        Align::Center => half_toward_zero(max_width - line_width),
        Align::End => if rtl {
            0
        } else {
            max_width - line_width
        },
        Align::Justified => 0,
    }
}

/// Computes the horizontal start offset of a line. A line wider than the
/// target width yields a negative offset (overflow, never truncation).
pub fn align_offset(align: Align, line_width: i64, max_width: i64, rtl: bool) -> (r: i64)
    requires
        0 <= line_width <= 0x1000_0000_0000,
        0 <= max_width <= 0x1000_0000_0000,
    ensures
        r == spec_align_offset(align, line_width as int, max_width as int, rtl),
{
    match align {
        Align::Left => 0,
        Align::Justified => 0,
        Align::Right => max_width - line_width,
        Align::Center => {
            if max_width >= line_width {
                let d = max_width - line_width;
                ((d as u64) / 2) as i64
            } else {
                let d = line_width - max_width;
                -(((d as u64) / 2) as i64)
            }
        },
        Align::End => {
            if rtl {
                0
            } else {
                max_width - line_width
            }
        },
    }
}

/// Number of justification gaps among `line[..upto]`: glyphs after the
/// first that begin a word.
pub open spec fn gap_count(line: Seq<ShapedGlyph>, upto: int) -> int
    decreases upto,
{
    if upto <= 1 {
        0
    } else {
        gap_count(line, upto - 1) + if line[upto - 1].word_start {
            1int
        } else {
            0int
        }
    }
}

/// The gap count never exceeds the number of glyphs counted.
pub proof fn lemma_gap_count_bound(line: Seq<ShapedGlyph>, upto: int)
    ensures
        0 <= gap_count(line, upto) <= if upto <= 1 {
            0int
        } else {
            upto - 1
        },
    decreases upto,
{
    if upto > 1 {
        lemma_gap_count_bound(line, upto - 1);
    }
}

/// Total of the first `upto` justification extras.
pub open spec fn sum_extras(extras: Seq<i64>, upto: int) -> int
    decreases upto,
{
    if upto <= 0 {
        0
    } else {
        sum_extras(extras, upto - 1) + extras[upto - 1]
    }
}

/// The total of the extras depends only on the entries below `upto`.
pub proof fn lemma_sum_extras_prefix(s1: Seq<i64>, s2: Seq<i64>, upto: int)
    requires
        forall|k: int| 0 <= k < upto ==> s1[k] == s2[k],
    ensures
        sum_extras(s1, upto) == sum_extras(s2, upto),
    decreases upto,
{
    if upto > 0 {
        lemma_sum_extras_prefix(s1, s2, upto - 1);
    }
}

/// Counts the justification gaps of a line: glyphs after the first that
/// begin a word.
pub fn count_gaps(line: &Vec<ShapedGlyph>) -> (g: usize)
    requires
        line@.len() <= MAX_GLYPHS,
    ensures
        g == gap_count(line@, line@.len() as int),
{
    let n = line.len();
    let mut g: usize = 0;
    let mut i: usize = 1;
    proof {
        lemma_gap_count_bound(line@, line@.len() as int);
    }
    if n == 0 {
        return 0;
    }
    while i < n
        invariant
            n == line@.len(),
            1 <= i <= n,
            g == gap_count(line@, i as int),
            g <= i - 1,
        decreases n - i,
    {
        proof {
            lemma_gap_count_bound(line@, i as int);
        }
        if line[i].word_start {
            g = g + 1;
        }
        i = i + 1;
    }
    g
}

/// Distributes the leftover width of a justified line evenly over its gaps:
/// every gap receives the same share, and the integer-rounding remainder
/// goes to the last gap, so the extras fill the leftover width exactly. A
/// line with no gaps (a single word) receives no stretch at all, and a line
/// already at or over the target width receives all-zero extras.
pub fn justify_gaps(line: &Vec<ShapedGlyph>, line_width: i64, max_width: i64) -> (extras: Vec<
    i64,
>)
    requires
        line@.len() <= MAX_GLYPHS,
        0 <= line_width,
        0 <= max_width <= MAX_DIM,
    ensures
        extras@.len() == gap_count(line@, line@.len() as int),
        ({
            let g = gap_count(line@, line@.len() as int);
            let extra: int = if max_width >= line_width {
                max_width - line_width
            } else {
                0
            };
            &&& (forall|i: int| 0 <= i < g - 1 ==> #[trigger] extras@[i] == extra / g)
            &&& (g > 0 ==> extras@[g - 1] == extra / g + extra % g)
            &&& (forall|i: int| 0 <= i < g ==> 0 <= #[trigger] extras@[i] <= extra)
            &&& sum_extras(extras@, g) == if g > 0 {
                extra
            } else {
                0int
            }
        }),
{
    let g = count_gaps(line);
    let mut extras: Vec<i64> = Vec::new();
    if g == 0 {
        return extras;
    }
    let extra: i64 = if max_width >= line_width {
        max_width - line_width
    } else {
        0
    };
    let q: i64 = (((extra as u64) / (g as u64))) as i64;
    let rem: i64 = (((extra as u64) % (g as u64))) as i64;
    proof {
        assert((extra as u64) as int == extra as int);
        assert((g as u64) as int == g as int);
        assert((extra as u64) / (g as u64) <= (extra as u64));
        assert(q == extra as int / g as int);
        assert(rem == extra as int % g as int);
        lemma_fundamental_div_mod(extra as int, g as int);
        assert(g as int * (extra as int / g as int) + extra as int % g as int == extra as int);
        assert(0 <= extra as int % (g as int));
        assert(extra as int % (g as int) < g as int);
        assert(q <= extra && q + rem <= extra) by {
            assert(g as int * q >= q) by (nonlinear_arith)
                requires
                    g as int >= 1,
                    q >= 0,
            ;
        }
    }
    let mut i: usize = 0;
    while i < g - 1
        invariant
            1 <= g,
            extras@.len() == i,
            0 <= i <= g - 1,
            0 <= q <= extra,
            0 <= rem,
            q + rem <= extra,
            g as int * q as int + rem == extra,
            forall|k: int| 0 <= k < i ==> #[trigger] extras@[k] == q,
            sum_extras(extras@, i as int) == i as int * q as int,
        decreases g - 1 - i,
    {
        let ghost pre = extras@;
        extras.push(q);
        proof {
            lemma_sum_extras_prefix(pre, extras@, i as int);
            assert(extras@[i as int] == q);
            assert(sum_extras(extras@, i as int + 1) == sum_extras(extras@, i as int) + q);
            assert((i + 1) as int * q as int == i as int * q as int + q as int) by (nonlinear_arith);
        }
        i = i + 1;
    }
    let ghost pre = extras@;
    extras.push(q + rem);
    proof {
        lemma_sum_extras_prefix(pre, extras@, g as int - 1);
        assert(extras@[g as int - 1] == q + rem);
        assert(sum_extras(extras@, g as int) == (g - 1) as int * q as int + q + rem);
        assert((g - 1) as int * q as int + q as int == g as int * q as int) by (nonlinear_arith);
        lemma_fundamental_div_mod(extra as int, g as int);
    }
    extras
}

} // verus!
