//! Height limiter / ellipsizer: resolves the height limit to a concrete
//! line count, and finds the exact truncation points at which an ellipsis
//! glyph replaces dropped content while the remaining width stays within
//! bounds.
//!
//! Truncation is visible, never silent: when even the ellipsis alone is
//! wider than the target width, it is still emitted (the line overflows).

use vstd::prelude::*;

use crate::model::{HeightLimit, LineSpan, ShapedGlyph, MAX_DIM, MAX_GLYPHS, MAX_LINE_HEIGHT, wf_glyphs};
use crate::width::{lemma_width_split, lemma_width_unfold_back, width_of};

verus! {

/// Total of the first `upto` line heights.
pub open spec fn sum_heights(heights: Seq<i64>, upto: int) -> int
    decreases upto,
{
    if upto <= 0 {
        0
    } else {
        sum_heights(heights, upto - 1) + heights[upto - 1]
    }
}

/// Resolves a height limit to a concrete maximum line count: `Default` is a
/// single line; `Lines(n)` allows `max(n, 1)` lines; `Height` allows as
/// many whole lines as fit in the available vertical extent, but always at
/// least one (a zero extent degrades to a single line, never to none).
pub fn resolve_height_limit(limit: HeightLimit, heights: &Vec<i64>, available: i64) -> (k: usize)
    requires
        heights@.len() <= MAX_GLYPHS,
        forall|i: int| 0 <= i < heights@.len() ==> 0 <= #[trigger] heights@[i] <= MAX_LINE_HEIGHT,
        0 <= available,
    ensures
        1 <= k,
        limit == HeightLimit::Default ==> k == 1,
        limit matches HeightLimit::Lines(n) ==> k == if n == 0 {
            1int
        } else {
            n as int
        },
        limit == HeightLimit::Height ==> {
            &&& k <= if heights@.len() == 0 {
                1int
            } else {
                heights@.len() as int
            }
            &&& (k > 1 ==> sum_heights(heights@, k as int) <= available)
            &&& (k < heights@.len() ==> sum_heights(heights@, k as int + 1) > available)
        },
{
    match limit {
        HeightLimit::Default => 1,
        HeightLimit::Lines(n) => {
            if n == 0 {
                1
            } else {
                n as usize
            }
        },
        HeightLimit::Height => {
            let len = heights.len();
            if len == 0 {
                return 1;
            }
            let mut k: usize = 1;
            let mut total: i64 = heights[0];
            proof {
                assert(sum_heights(heights@, 0) == 0);
                assert(sum_heights(heights@, 1) == heights@[0]);
            }
            while k < len && total + heights[k] <= available
                invariant
                    len == heights@.len(),
                    len <= MAX_GLYPHS,
                    forall|i: int| 0 <= i < heights@.len() ==> 0 <= #[trigger] heights@[i]
                        <= MAX_LINE_HEIGHT,
                    0 <= available,
                    1 <= k <= len,
                    total == sum_heights(heights@, k as int),
                    0 <= total <= k * MAX_LINE_HEIGHT,
                    k > 1 ==> total <= available,
                decreases len - k,
            {
                total = total + heights[k];
                k = k + 1;
            }
            k
        },
    }
}

/// End-ellipsis truncation point for the last kept line `span`: the longest
/// kept prefix `span.start..e` whose width plus the ellipsis advance stays
/// within `max_width`; when not even the first glyph fits alongside the
/// ellipsis, everything is dropped (`e == span.start`) and the ellipsis
/// alone occupies the line.
pub fn ellipsize_end_line(
    glyphs: &Vec<ShapedGlyph>,
    span: LineSpan,
    max_width: i64,
    ellipsis_advance: i64,
) -> (e: usize)
    requires
        wf_glyphs(glyphs@),
        span.start <= span.end <= glyphs@.len(),
        0 <= max_width,
        0 <= ellipsis_advance <= MAX_DIM,
    ensures
        span.start <= e <= span.end,
        width_of(glyphs@, span.start as int, e as int) + ellipsis_advance <= max_width || e
            == span.start,
        e < span.end ==> width_of(glyphs@, span.start as int, e as int + 1) + ellipsis_advance
            > max_width,
{
    let s = span.start;
    let mut e: usize = s;
    let mut w: i64 = 0;
    while e < span.end && w + glyphs[e].advance + ellipsis_advance <= max_width
        invariant
            wf_glyphs(glyphs@),
            span.start <= span.end <= glyphs@.len(),
            0 <= ellipsis_advance <= MAX_DIM,
            s == span.start,
            s <= e <= span.end,
            w == width_of(glyphs@, s as int, e as int),
            0 <= w <= (e - s) * MAX_DIM,
            e > s ==> w + ellipsis_advance <= max_width,
        decreases span.end - e,
    {
        proof {
            lemma_width_unfold_back(glyphs@, s as int, e as int + 1);
        }
        w = w + glyphs[e].advance;
        e = e + 1;
    }
    proof {
        if e < span.end {
            lemma_width_unfold_back(glyphs@, s as int, e as int + 1);
        }
    }
    e
}

/// Start-ellipsis truncation point for the whole paragraph: the longest
/// kept suffix `s..len` whose width plus the ellipsis advance stays within
/// `max_width`; when nothing fits, everything is dropped (`s == len`) and
/// the ellipsis alone occupies the line.
pub fn ellipsize_start(glyphs: &Vec<ShapedGlyph>, max_width: i64, ellipsis_advance: i64) -> (s:
    usize)
    requires
        wf_glyphs(glyphs@),
        0 <= max_width,
        0 <= ellipsis_advance <= MAX_DIM,
    ensures
        s <= glyphs@.len(),
        width_of(glyphs@, s as int, glyphs@.len() as int) + ellipsis_advance <= max_width || s
            == glyphs@.len(),
        s > 0 ==> width_of(glyphs@, s as int - 1, glyphs@.len() as int) + ellipsis_advance
            > max_width,
{
    let n = glyphs.len();
    let mut s: usize = n;
    let mut w: i64 = 0;
    while s > 0 && w + glyphs[s - 1].advance + ellipsis_advance <= max_width
        invariant
            wf_glyphs(glyphs@),
            n == glyphs@.len(),
            0 <= ellipsis_advance <= MAX_DIM,
            0 <= s <= n,
            w == width_of(glyphs@, s as int, n as int),
            0 <= w <= (n - s) * MAX_DIM,
            s < n ==> w + ellipsis_advance <= max_width,
        decreases s,
    {
        w = w + glyphs[s - 1].advance;
        s = s - 1;
    }
    s
}

/// Index of the interior midpoint around which middle-ellipsis dropping
/// proceeds.
pub open spec fn mid_of(n: int) -> int {
    n / 2
}

/// The kept ranges after `d` symmetric drops around the midpoint: the
/// prefix `0..p` and the suffix `q..n`. Drops alternate sides, taking from
/// the later (logically right) side first; a side that is exhausted passes
/// its turn to the other.
pub open spec fn drop_state(n: int, d: int) -> (int, int)
    decreases d,
{
    if d <= 0 {
        (mid_of(n), mid_of(n))
    } else {
        let prev = drop_state(n, d - 1);
        let p = prev.0;
        let q = prev.1;
        if d % 2 == 1 {
            if q < n {
                (p, q + 1)
            } else if p > 0 {
                (p - 1, q)
            } else {
                (p, q)
            }
        } else {
            if p > 0 {
                (p - 1, q)
            } else if q < n {
                (p, q + 1)
            } else {
                (p, q)
            }
        }
    }
}

/// Width of the content kept by a middle-ellipsis state: the prefix before
/// the drop point plus the suffix after it.
pub open spec fn kept_width(glyphs: Seq<ShapedGlyph>, p: int, q: int) -> int {
    width_of(glyphs, 0, p) + width_of(glyphs, q, glyphs.len() as int)
}

/// Middle-ellipsis truncation for the whole paragraph: drops glyphs
/// symmetrically from the interior, later side first, until the kept width
/// plus the ellipsis advance stays within `max_width` (or everything is
/// dropped). Returns the kept prefix end `p` and suffix start `q`; the
/// number of drops taken is minimal, and the pair is exactly the one the
/// alternating schedule reaches after that many drops.
pub fn ellipsize_middle(glyphs: &Vec<ShapedGlyph>, max_width: i64, ellipsis_advance: i64) -> (r: (
    usize,
    usize,
))
    requires
        wf_glyphs(glyphs@),
        0 <= max_width,
        0 <= ellipsis_advance <= MAX_DIM,
    ensures
        ({
            let n = glyphs@.len() as int;
            let p = r.0 as int;
            let q = r.1 as int;
            let d = (mid_of(n) - p) + (q - mid_of(n));
            &&& 0 <= p <= mid_of(n)
            &&& mid_of(n) <= q <= n
            &&& drop_state(n, d) == (p, q)
            &&& (kept_width(glyphs@, p, q) + ellipsis_advance <= max_width || (p == 0 && q == n))
            &&& (d > 0 ==> {
                let prev = drop_state(n, d - 1);
                kept_width(glyphs@, prev.0, prev.1) + ellipsis_advance > max_width
            })
        }),
{
    let n = glyphs.len();
    let mid = n / 2;

    // width of the whole paragraph, which is the kept width before any drop
    let mut w: i64 = 0;
    let mut i: usize = 0;
    while i < n
        invariant
            wf_glyphs(glyphs@),
            n == glyphs@.len(),
            0 <= i <= n,
            w == width_of(glyphs@, 0, i as int),
            0 <= w <= i * MAX_DIM,
        decreases n - i,
    {
        proof {
            lemma_width_unfold_back(glyphs@, 0, i as int + 1);
        }
        w = w + glyphs[i].advance;
        i = i + 1;
    }
    proof {
        lemma_width_split(glyphs@, 0, mid as int, n as int);
        assert(mid as int == mid_of(n as int));
    }

    let mut p: usize = mid;
    let mut q: usize = mid;
    let mut d: usize = 0;
    while w + ellipsis_advance > max_width && (p > 0 || q < n)
        invariant
            wf_glyphs(glyphs@),
            n == glyphs@.len(),
            mid as int == mid_of(n as int),
            0 <= ellipsis_advance <= MAX_DIM,
            0 <= p <= mid,
            mid <= q <= n,
            d == (mid - p) + (q - mid),
            drop_state(n as int, d as int) == (p as int, q as int),
            w == kept_width(glyphs@, p as int, q as int),
            0 <= w <= n * MAX_DIM,
            d > 0 ==> {
                let prev = drop_state(n as int, d as int - 1);
                kept_width(glyphs@, prev.0, prev.1) + ellipsis_advance > max_width
            },
        decreases p + (n - q),
    {
        if d % 2 == 0 {
            // the next drop is odd-numbered: take from the later side first
            if q < n {
                proof {
                    assert(width_of(glyphs@, q as int, n as int) == glyphs@[q as int].advance
                        + width_of(glyphs@, q as int + 1, n as int));
                    crate::width::lemma_width_bounds(glyphs@, 0, p as int);
                    crate::width::lemma_width_bounds(glyphs@, q as int + 1, n as int);
                }
                w = w - glyphs[q].advance;
                q = q + 1;
            } else {
                proof {
                    lemma_width_unfold_back(glyphs@, 0, p as int);
                    crate::width::lemma_width_bounds(glyphs@, 0, p as int - 1);
                    crate::width::lemma_width_bounds(glyphs@, q as int, n as int);
                }
                w = w - glyphs[p - 1].advance;
                p = p - 1;
            }
        } else {
            if p > 0 {
                proof {
                    lemma_width_unfold_back(glyphs@, 0, p as int);
                    crate::width::lemma_width_bounds(glyphs@, 0, p as int - 1);
                    crate::width::lemma_width_bounds(glyphs@, q as int, n as int);
                }
                w = w - glyphs[p - 1].advance;
                p = p - 1;
            } else {
                proof {
                    assert(width_of(glyphs@, q as int, n as int) == glyphs@[q as int].advance
                        + width_of(glyphs@, q as int + 1, n as int));
                    crate::width::lemma_width_bounds(glyphs@, 0, p as int);
                    crate::width::lemma_width_bounds(glyphs@, q as int + 1, n as int);
                }
                w = w - glyphs[q].advance;
                q = q + 1;
            }
        }
        d = d + 1;
    }
    (p, q)
}

/// Copies the glyph range `s..e` into a fresh line buffer.
pub fn copy_range(glyphs: &Vec<ShapedGlyph>, s: usize, e: usize) -> (r: Vec<ShapedGlyph>)
    requires
        s <= e <= glyphs@.len(),
    ensures
        r@ == glyphs@.subrange(s as int, e as int),
{
    let mut r: Vec<ShapedGlyph> = Vec::new();
    let mut i: usize = s;
    while i < e
        invariant
            s <= i <= e <= glyphs@.len(),
            r@ == glyphs@.subrange(s as int, i as int),
        decreases e - i,
    {
        r.push(glyphs[i]);
        proof {
            assert(r@ =~= glyphs@.subrange(s as int, i as int + 1));
        }
        i = i + 1;
    }
    r
}


/// Ellipsis width bound: whenever the ellipsis itself fits in the target
/// width, the truncated line (kept prefix plus ellipsis) fits too; only an
/// ellipsis wider than the line itself may overflow.
pub proof fn lemma_end_ellipsis_width_bound(
    glyphs: Seq<ShapedGlyph>,
    span: LineSpan,
    max_width: int,
    ellipsis_advance: int,
    e: int,
)
    requires
        span.start <= e,
        width_of(glyphs, span.start as int, e) + ellipsis_advance <= max_width || e
            == span.start,
        0 <= ellipsis_advance <= max_width,
    ensures
        width_of(glyphs, span.start as int, e) + ellipsis_advance <= max_width,
{
}

} // verus!
