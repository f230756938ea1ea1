//! Bidi reorderer: turns a line's logical glyph order into visual order
//! using the glyphs' embedding levels, by the standard level-run procedure:
//! at each level from the highest down, every maximal run of positions at
//! that level or higher is reversed in place. Reordering is confined to one
//! line and touches array positions only, never glyph content.

use vstd::prelude::*;

use crate::model::{ShapedGlyph, MAX_GLYPHS, MAX_LEVEL, wf_glyphs};
use crate::width::{lemma_width_congruent, lemma_width_split, width_of};

verus! {

/// The identity order of `n` positions.
pub open spec fn identity_order(n: nat) -> Seq<usize> {
    Seq::new(n, |i: int| i as usize)
}

/// Positions `s..e` of `order` reversed in place.
pub open spec fn reverse_range(order: Seq<usize>, s: int, e: int) -> Seq<usize> {
    Seq::new(order.len(), |i: int| if s <= i < e {
        order[e - 1 - (i - s)]
    } else {
        order[i]
    })
}

/// End of the maximal run containing position `s` whose levels are all at
/// least `l`: the first later index whose level drops below `l`, or the end
/// of the line.
pub open spec fn run_end(levels: Seq<u8>, l: int, s: int) -> int
    decreases levels.len() - s,
{
    if s + 1 >= levels.len() {
        levels.len() as int
    } else if levels[s + 1] < l {
        s + 1
    } else {
        run_end(levels, l, s + 1)
    }
}

/// The run end lies strictly after `s` and within the line; everything in
/// the run is at level `l` or higher, and the position after it (if any) is
/// below `l`.
pub proof fn lemma_run_end_range(levels: Seq<u8>, l: int, s: int)
    requires
        0 <= s < levels.len(),
    ensures
        s < run_end(levels, l, s) <= levels.len(),
        forall|k: int| s < k < run_end(levels, l, s) ==> levels[k] >= l,
        run_end(levels, l, s) < levels.len() ==> levels[run_end(levels, l, s)] < l,
    decreases levels.len() - s,
{
    if s + 1 < levels.len() && levels[s + 1] >= l {
        lemma_run_end_range(levels, l, s + 1);
    }
}

/// `e` is the run end exactly when it is the first position after `s` at a
/// level below `l` (or the end of the line).
pub proof fn lemma_run_end_char(levels: Seq<u8>, l: int, s: int, e: int)
    requires
        0 <= s < e <= levels.len(),
        e == levels.len() || levels[e] < l,
        forall|k: int| s < k < e ==> #[trigger] levels[k] >= l,
    ensures
        run_end(levels, l, s) == e,
    decreases e - s,
{
    if s + 1 < e {
        lemma_run_end_char(levels, l, s + 1, e);
    }
}

/// One reordering pass at level `l`, scanning from `from`: every maximal
/// run of positions whose level is at least `l` is reversed.
pub open spec fn level_pass(order: Seq<usize>, levels: Seq<u8>, l: int, from: int) -> Seq<usize>
    decreases levels.len() - from,
    via level_pass_decreases
{
    if from >= levels.len() {
        order
    } else if levels[from] < l {
        level_pass(order, levels, l, from + 1)
    } else {
        let e = run_end(levels, l, from);
        level_pass(reverse_range(order, from, e), levels, l, e)
    }
}

#[via_fn]
proof fn level_pass_decreases(order: Seq<usize>, levels: Seq<u8>, l: int, from: int) {
    if from < levels.len() && levels[from] >= l {
        lemma_run_end_gt(levels, l, from);
    }
}

/// The run end always lies strictly after its start position.
pub proof fn lemma_run_end_gt(levels: Seq<u8>, l: int, s: int)
    requires
        s < levels.len(),
    ensures
        s < run_end(levels, l, s) <= levels.len(),
    decreases levels.len() - s,
{
    if s + 1 < levels.len() && levels[s + 1] >= l {
        lemma_run_end_gt(levels, l, s + 1);
    }
}

/// The visual order after the passes at every level from `MAX_LEVEL` down
/// to `l` have been applied to the identity order.
pub open spec fn passes_down(levels: Seq<u8>, l: int) -> Seq<usize>
    decreases MAX_LEVEL + 1 - l,
{
    if l > MAX_LEVEL {
        identity_order(levels.len())
    } else {
        level_pass(passes_down(levels, l + 1), levels, l, 0)
    }
}

/// The visual order of a line with the given embedding levels: the
/// level-run reordering applied at each level from the highest down.
pub open spec fn visual_order_of(levels: Seq<u8>) -> Seq<usize> {
    passes_down(levels, 1)
}

/// An order is a permutation of the line's positions: every entry is a
/// valid position and no two entries coincide.
pub open spec fn perm_props(order: Seq<usize>, n: int) -> bool {
    &&& order.len() == n
    &&& (forall|i: int| 0 <= i < n ==> (#[trigger] order[i]) < n)
    &&& (forall|i: int, j: int| 0 <= i < j < n ==> order[i] != order[j])
}

/// Reversing a range of a permutation yields a permutation.
pub proof fn lemma_reverse_range_perm(order: Seq<usize>, s: int, e: int, n: int)
    requires
        perm_props(order, n),
        0 <= s <= e <= n,
    ensures
        perm_props(reverse_range(order, s, e), n),
{
    let r = reverse_range(order, s, e);
    assert forall|i: int, j: int| 0 <= i < j < n implies r[i] != r[j] by {
        let mi = if s <= i < e { e - 1 - (i - s) } else { i };
        let mj = if s <= j < e { e - 1 - (j - s) } else { j };
        assert(r[i] == order[mi]);
        assert(r[j] == order[mj]);
        assert(mi != mj);
    }
}

/// A level pass on a permutation yields a permutation.
pub proof fn lemma_level_pass_perm(order: Seq<usize>, levels: Seq<u8>, l: int, from: int, n: int)
    requires
        perm_props(order, n),
        levels.len() == n,
        n <= MAX_GLYPHS,
        0 <= from,
    ensures
        perm_props(level_pass(order, levels, l, from), n),
    decreases levels.len() - from,
{
    if from >= levels.len() {
    } else if levels[from] < l {
        lemma_level_pass_perm(order, levels, l, from + 1, n);
    } else {
        lemma_run_end_range(levels, l, from);
        let e = run_end(levels, l, from);
        lemma_reverse_range_perm(order, from, e, n);
        lemma_level_pass_perm(reverse_range(order, from, e), levels, l, e, n);
    }
}

/// The passes from any level down preserve being a permutation.
pub proof fn lemma_passes_down_perm(levels: Seq<u8>, l: int)
    requires
        levels.len() <= MAX_GLYPHS,
    ensures
        perm_props(passes_down(levels, l), levels.len() as int),
    decreases MAX_LEVEL + 1 - l,
{
    if l > MAX_LEVEL {
        let ident = identity_order(levels.len());
        assert forall|i: int| 0 <= i < levels.len() implies (#[trigger] ident[i]) < levels.len() by {
            assert(ident[i] == i as usize);
        }
        assert forall|i: int, j: int| 0 <= i < j < levels.len() implies ident[i] != ident[j] by {
            assert(ident[i] == i as usize);
            assert(ident[j] == j as usize);
        }
    } else {
        lemma_passes_down_perm(levels, l + 1);
        lemma_level_pass_perm(passes_down(levels, l + 1), levels, l, 0, levels.len() as int);
    }
}

/// The visual order of a line is a permutation of its positions.
pub proof fn lemma_visual_order_perm(levels: Seq<u8>)
    requires
        levels.len() <= MAX_GLYPHS,
    ensures
        perm_props(visual_order_of(levels), levels.len() as int),
{
    lemma_passes_down_perm(levels, 1);
}

/// Computes the visual order of a line from its embedding levels: the entry
/// at visual position `v` is the logical index displayed there. The result
/// is a permutation of the line's positions.
pub fn reorder_line(levels: &Vec<u8>) -> (order: Vec<usize>)
    requires
        levels@.len() <= MAX_GLYPHS,
    ensures
        order@ == visual_order_of(levels@),
        perm_props(order@, levels@.len() as int),
{
    let n = levels.len();
    let mut order: Vec<usize> = Vec::new();
    let mut i: usize = 0;
    while i < n
        invariant
            0 <= i <= n,
            order@.len() == i,
            forall|k: int| 0 <= k < i ==> (#[trigger] order@[k]) == k,
        decreases n - i,
    {
        order.push(i);
        i = i + 1;
    }
    proof {
        assert(order@ =~= identity_order(levels@.len()));
    }

    let mut l: u8 = MAX_LEVEL;
    while l >= 1
        invariant
            n == levels@.len(),
            order@.len() == n,
            l <= MAX_LEVEL,
            order@ == passes_down(levels@, l as int + 1),
        decreases l,
    {
        let ghost start = order@;
        let mut s: usize = 0;
        while s < n
            invariant
                n == levels@.len(),
                order@.len() == n,
                0 <= s,
                s <= n,
                level_pass(start, levels@, l as int, 0) == level_pass(order@, levels@, l as int, s as int),
            decreases n - s,
        {
            if levels[s] < l {
                s = s + 1;
            } else {
                // find the end of the run of levels at least `l`
                let mut e: usize = s + 1;
                while e < n && levels[e] >= l
                    invariant
                        n == levels@.len(),
                        s < e <= n,
                        forall|k: int| s < k < e ==> #[trigger] levels@[k] >= l,
                    decreases n - e,
                {
                    e = e + 1;
                }
                proof {
                    lemma_run_end_char(levels@, l as int, s as int, e as int);
                }
                // reverse order[s..e] in place
                let ghost before = order@;
                if e - s >= 2 {
                    let mut a: usize = s;
                    let mut b: usize = e - 1;
                    while a < b
                        invariant
                            order@.len() == n,
                            s <= a,
                            b < e,
                            e <= n,
                            a + b == s + e - 1,
                            a <= b + 1,
                            forall|k: int| s <= k < a ==> order@[k] == before[e - 1 - (k - s)],
                            forall|k: int| b < k < e ==> order@[k] == before[e - 1 - (k - s)],
                            forall|k: int| a <= k <= b ==> order@[k] == before[k],
                            forall|k: int| 0 <= k < n && !(s <= k < e) ==> order@[k] == before[k],
                        decreases b,
                    {
                        let ta = order[a];
                        let tb = order[b];
                        order[a] = tb;
                        order[b] = ta;
                        a = a + 1;
                        b = b - 1;
                    }
                }
                proof {
                    assert(order@ =~= reverse_range(before, s as int, e as int));
                }
                s = e;
            }
        }
        l = l - 1;
    }
    proof {
        lemma_visual_order_perm(levels@);
    }
    order
}


/// Glyphs `s..e` of a line reversed in place, levels riding along.
pub open spec fn reverse_glyph_range(line: Seq<ShapedGlyph>, s: int, e: int) -> Seq<ShapedGlyph> {
    Seq::new(line.len(), |i: int| if s <= i < e {
        line[e - 1 - (i - s)]
    } else {
        line[i]
    })
}

/// End of the maximal run of glyphs containing position `s` whose levels
/// are all at least `l`.
pub open spec fn glyph_run_end(line: Seq<ShapedGlyph>, l: int, s: int) -> int
    decreases line.len() - s,
{
    if s + 1 >= line.len() {
        line.len() as int
    } else if line[s + 1].level < l {
        s + 1
    } else {
        glyph_run_end(line, l, s + 1)
    }
}

/// The glyph run end always lies strictly after its start and within the
/// line.
pub proof fn lemma_glyph_run_end_gt(line: Seq<ShapedGlyph>, l: int, s: int)
    requires
        s < line.len(),
    ensures
        s < glyph_run_end(line, l, s) <= line.len(),
    decreases line.len() - s,
{
    if s + 1 < line.len() && line[s + 1].level >= l {
        lemma_glyph_run_end_gt(line, l, s + 1);
    }
}

/// `e` is the glyph run end exactly when it is the first position after
/// `s` below level `l` (or the end of the line).
pub proof fn lemma_glyph_run_end_char(line: Seq<ShapedGlyph>, l: int, s: int, e: int)
    requires
        0 <= s < e <= line.len(),
        e == line.len() || line[e].level < l,
        forall|k: int| s < k < e ==> (#[trigger] line[k]).level >= l,
    ensures
        glyph_run_end(line, l, s) == e,
    decreases e - s,
{
    if s + 1 < e {
        lemma_glyph_run_end_char(line, l, s + 1, e);
    }
}

/// One reordering pass at level `l` applied to the glyphs themselves:
/// every maximal run of glyphs whose level is at least `l` is reversed.
pub open spec fn glyph_pass(line: Seq<ShapedGlyph>, l: int, from: int) -> Seq<ShapedGlyph>
    decreases line.len() - from,
    via glyph_pass_decreases
{
    if from >= line.len() {
        line
    } else if line[from].level < l {
        glyph_pass(line, l, from + 1)
    } else {
        let e = glyph_run_end(line, l, from);
        glyph_pass(reverse_glyph_range(line, from, e), l, e)
    }
}

#[via_fn]
proof fn glyph_pass_decreases(line: Seq<ShapedGlyph>, l: int, from: int) {
    if from < line.len() && line[from].level >= l {
        lemma_glyph_run_end_gt(line, l, from);
    }
}

/// The visually ordered glyphs after the passes at every level from
/// `MAX_LEVEL` down to `l`.
pub open spec fn glyph_passes_down(line: Seq<ShapedGlyph>, l: int) -> Seq<ShapedGlyph>
    decreases MAX_LEVEL + 1 - l,
{
    if l > MAX_LEVEL {
        line
    } else {
        glyph_pass(glyph_passes_down(line, l + 1), l, 0)
    }
}

/// The visual glyph order of a line: the level-run reordering applied to
/// the glyph sequence at each level from the highest down.
pub open spec fn glyph_visual_of(line: Seq<ShapedGlyph>) -> Seq<ShapedGlyph> {
    glyph_passes_down(line, 1)
}

/// Reversing a glyph range preserves the reversed stretch's width.
proof fn lemma_width_reverse_piece(line: Seq<ShapedGlyph>, a: int, b: int)
    requires
        0 <= a <= b <= line.len(),
    ensures
        width_of(reverse_glyph_range(line, a, b), a, b) == width_of(line, a, b),
    decreases b - a,
{
    if a < b {
        let rr = reverse_glyph_range(line, a, b);
        let rs = reverse_glyph_range(line, a, b - 1);
        assert(rr[a] == line[b - 1]);
        assert forall|d: int| 0 <= d < b - 1 - a implies #[trigger] rr[a + 1 + d] == rs[a + d] by {
            assert(rr[a + 1 + d] == line[b - 1 - (a + 1 + d - a)]);
            assert(rs[a + d] == line[b - 1 - 1 - (a + d - a)]);
        }
        lemma_width_congruent(rr, a + 1, rs, a, b - 1 - a);
        lemma_width_reverse_piece(line, a, b - 1);
        crate::width::lemma_width_unfold_back(line, a, b);
        assert(width_of(rr, a, b) == rr[a].advance + width_of(rr, a + 1, b));
    }
}

/// Reversing a glyph range preserves the line's total width, its length,
/// and the well-formedness of its glyphs.
proof fn lemma_reverse_glyph_range_width(line: Seq<ShapedGlyph>, a: int, b: int)
    requires
        0 <= a <= b <= line.len(),
    ensures
        width_of(reverse_glyph_range(line, a, b), 0, line.len() as int) == width_of(
            line,
            0,
            line.len() as int,
        ),
        reverse_glyph_range(line, a, b).len() == line.len(),
        wf_glyphs(line) ==> wf_glyphs(reverse_glyph_range(line, a, b)),
{
    let rr = reverse_glyph_range(line, a, b);
    let n = line.len() as int;
    assert(forall|d: int| 0 <= d < a ==> #[trigger] rr[0 + d] == line[0 + d]);
    lemma_width_congruent(rr, 0, line, 0, a);
    assert(forall|d: int| 0 <= d < n - b ==> #[trigger] rr[b + d] == line[b + d]);
    lemma_width_congruent(rr, b, line, b, n - b);
    lemma_width_reverse_piece(line, a, b);
    lemma_width_split(rr, 0, a, n);
    lemma_width_split(rr, a, b, n);
    lemma_width_split(line, 0, a, n);
    lemma_width_split(line, a, b, n);
}

/// A level pass over the glyphs preserves length, total width, and
/// well-formedness.
pub proof fn lemma_glyph_pass_width(line: Seq<ShapedGlyph>, l: int, from: int)
    requires
        0 <= from,
    ensures
        glyph_pass(line, l, from).len() == line.len(),
        width_of(glyph_pass(line, l, from), 0, line.len() as int) == width_of(
            line,
            0,
            line.len() as int,
        ),
        wf_glyphs(line) ==> wf_glyphs(glyph_pass(line, l, from)),
    decreases line.len() - from,
{
    if from >= line.len() {
    } else if line[from].level < l {
        lemma_glyph_pass_width(line, l, from + 1);
    } else {
        lemma_glyph_run_end_gt(line, l, from);
        let e = glyph_run_end(line, l, from);
        lemma_reverse_glyph_range_width(line, from, e);
        lemma_glyph_pass_width(reverse_glyph_range(line, from, e), l, e);
    }
}

/// The whole reordering preserves length, total width, and well-formedness:
/// it permutes the glyphs of the line and nothing more.
pub proof fn lemma_glyph_visual_width(line: Seq<ShapedGlyph>, l: int)
    ensures
        glyph_passes_down(line, l).len() == line.len(),
        width_of(glyph_passes_down(line, l), 0, line.len() as int) == width_of(
            line,
            0,
            line.len() as int,
        ),
        wf_glyphs(line) ==> wf_glyphs(glyph_passes_down(line, l)),
    decreases MAX_LEVEL + 1 - l,
{
    if l <= MAX_LEVEL {
        lemma_glyph_visual_width(line, l + 1);
        lemma_glyph_pass_width(glyph_passes_down(line, l + 1), l, 0);
    }
}

/// Reorders a line of glyphs into visual order by their embedding levels:
/// the level-run reordering applied in place, at each level from the
/// highest down. The result holds the same glyphs (reordered), so its
/// total advance width equals the input's.
pub fn reorder_glyphs(line: Vec<ShapedGlyph>) -> (visual: Vec<ShapedGlyph>)
    requires
        line@.len() <= MAX_GLYPHS,
    ensures
        visual@ == glyph_visual_of(line@),
        visual@.len() == line@.len(),
        width_of(visual@, 0, visual@.len() as int) == width_of(line@, 0, line@.len() as int),
        wf_glyphs(line@) ==> wf_glyphs(visual@),
{
    let ghost input = line@;
    let mut v = line;
    let n = v.len();
    let mut l: u8 = MAX_LEVEL;
    while l >= 1
        invariant
            n == input.len(),
            v@.len() == n,
            l <= MAX_LEVEL,
            v@ == glyph_passes_down(input, l as int + 1),
        decreases l,
    {
        let ghost start = v@;
        let mut s: usize = 0;
        while s < n
            invariant
                v@.len() == n,
                0 <= s,
                s <= n,
                glyph_pass(start, l as int, 0) == glyph_pass(v@, l as int, s as int),
            decreases n - s,
        {
            if v[s].level < l {
                s = s + 1;
            } else {
                let mut e: usize = s + 1;
                while e < n && v[e].level >= l
                    invariant
                        v@.len() == n,
                        s < e <= n,
                        forall|k: int| s < k < e ==> (#[trigger] v@[k]).level >= l,
                    decreases n - e,
                {
                    e = e + 1;
                }
                proof {
                    lemma_glyph_run_end_char(v@, l as int, s as int, e as int);
                }
                let ghost before = v@;
                if e - s >= 2 {
                    let mut a: usize = s;
                    let mut b: usize = e - 1;
                    while a < b
                        invariant
                            v@.len() == n,
                            s <= a,
                            b < e,
                            e <= n,
                            a + b == s + e - 1,
                            a <= b + 1,
                            forall|k: int| s <= k < a ==> v@[k] == before[e - 1 - (k - s)],
                            forall|k: int| b < k < e ==> v@[k] == before[e - 1 - (k - s)],
                            forall|k: int| a <= k <= b ==> v@[k] == before[k],
                            forall|k: int| 0 <= k < n && !(s <= k < e) ==> v@[k] == before[k],
                        decreases b,
                    {
                        let ta = v[a];
                        let tb = v[b];
                        v[a] = tb;
                        v[b] = ta;
                        a = a + 1;
                        b = b - 1;
                    }
                }
                proof {
                    assert(v@ =~= reverse_glyph_range(before, s as int, e as int));
                }
                s = e;
            }
        }
        l = l - 1;
    }
    proof {
        lemma_glyph_visual_width(input, 1);
    }
    v
}



/// One pass over a single glyph leaves it in place.
proof fn lemma_single_glyph_pass(piece: Seq<ShapedGlyph>, l: int)
    requires
        piece.len() == 1,
    ensures
        glyph_pass(piece, l, 0) == piece,
{
    if piece[0].level < l {
        assert(glyph_pass(piece, l, 1) == piece);
        assert(glyph_pass(piece, l, 0) == glyph_pass(piece, l, 1));
    } else {
        assert(glyph_run_end(piece, l, 0) == 1);
        let rev = reverse_glyph_range(piece, 0, 1);
        assert(rev =~= piece);
        assert(glyph_pass(rev, l, 1) == rev);
        assert(glyph_pass(piece, l, 0) == glyph_pass(rev, l, 1));
    }
}

/// A line of a single glyph is its own visual order.
pub proof fn lemma_single_glyph_visual(piece: Seq<ShapedGlyph>)
    requires
        piece.len() == 1,
    ensures
        glyph_visual_of(piece) == piece,
{
    lemma_single_glyph_passes_down(piece, 1);
}

proof fn lemma_single_glyph_passes_down(piece: Seq<ShapedGlyph>, l: int)
    requires
        piece.len() == 1,
    ensures
        glyph_passes_down(piece, l) == piece,
    decreases MAX_LEVEL + 1 - l,
{
    if l <= MAX_LEVEL {
        lemma_single_glyph_passes_down(piece, l + 1);
        lemma_single_glyph_pass(piece, l);
    }
}

} // verus!
