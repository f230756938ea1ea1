use glyph_layout::align::{align_offset, count_gaps, justify_gaps};
use glyph_layout::bidi::{reorder_glyphs, reorder_line};
use glyph_layout::ellipsize::{
    ellipsize_end_line, ellipsize_middle, ellipsize_start, resolve_height_limit,
};
use glyph_layout::model::{
    Align, CacheKeyFlags, HeightLimit, LineSpan, ShapedGlyph, Wrap, SUBUNITS,
};
use glyph_layout::wrap::break_lines;

fn glyph(advance_px: i64, word_start: bool, level: u8) -> ShapedGlyph {
    ShapedGlyph {
        start: 0,
        end: 1,
        font_id: 1,
        glyph_id: 7,
        advance: advance_px * SUBUNITS,
        font_size: 16 * SUBUNITS,
        line_height_opt: None,
        ascent: 12 * SUBUNITS,
        descent: 4 * SUBUNITS,
        level,
        x_offset: 0,
        y_offset: 0,
        color_opt: None,
        metadata: 0,
        cache_key_flags: CacheKeyFlags(0),
        word_start,
    }
}

fn spans_of(glyphs: &Vec<ShapedGlyph>, wrap: Wrap, max_px: i64) -> Vec<LineSpan> {
    break_lines(glyphs, wrap, max_px * SUBUNITS)
}

fn check_coverage(spans: &Vec<LineSpan>, n: usize) {
    assert!(!spans.is_empty());
    assert_eq!(spans[0].start, 0);
    assert_eq!(spans[spans.len() - 1].end, n);
    for i in 0..spans.len() - 1 {
        assert_eq!(spans[i].end, spans[i + 1].start);
    }
}

#[test]
fn no_wrap_never_splits() {
    for n in [0usize, 1, 5, 40] {
        let glyphs: Vec<ShapedGlyph> = (0..n).map(|_| glyph(1000, false, 0)).collect();
        let spans = spans_of(&glyphs, Wrap::NoWrap, 10);
        assert_eq!(spans.len(), 1);
        assert_eq!(spans[0].start, 0);
        assert_eq!(spans[0].end, n);
    }
}

#[test]
fn every_mode_covers_the_paragraph() {
    let glyphs = vec![
        glyph(30, false, 0),
        glyph(30, false, 0),
        glyph(10, true, 0),
        glyph(25, false, 0),
        glyph(40, true, 0),
    ];
    for wrap in [Wrap::NoWrap, Wrap::Glyph, Wrap::Word, Wrap::WordOrGlyph] {
        let spans = spans_of(&glyphs, wrap, 64);
        check_coverage(&spans, glyphs.len());
    }
}

#[test]
fn glyph_wrap_forces_one_line_per_glyph() {
    let glyphs: Vec<ShapedGlyph> = (0..6).map(|_| glyph(20, false, 0)).collect();
    let spans = spans_of(&glyphs, Wrap::Glyph, 10);
    assert_eq!(spans.len(), 6);
    for (i, sp) in spans.iter().enumerate() {
        assert_eq!(sp.start, i);
        assert_eq!(sp.end, i + 1);
    }
}

#[test]
fn glyph_wrap_breaks_as_late_as_possible() {
    let glyphs = vec![
        glyph(30, false, 0),
        glyph(30, false, 0),
        glyph(30, false, 0),
        glyph(30, false, 0),
        glyph(30, false, 0),
    ];
    let spans = spans_of(&glyphs, Wrap::Glyph, 64);
    assert_eq!(spans.len(), 3);
    assert_eq!((spans[0].start, spans[0].end), (0, 2));
    assert_eq!((spans[1].start, spans[1].end), (2, 4));
    assert_eq!((spans[2].start, spans[2].end), (4, 5));
}

#[test]
fn zero_advance_glyphs_never_break() {
    let glyphs: Vec<ShapedGlyph> = (0..10).map(|_| glyph(0, false, 0)).collect();
    let spans = spans_of(&glyphs, Wrap::Glyph, 0);
    assert_eq!(spans.len(), 1);
}

#[test]
fn empty_paragraph_yields_one_empty_span() {
    let glyphs: Vec<ShapedGlyph> = Vec::new();
    for wrap in [Wrap::NoWrap, Wrap::Glyph, Wrap::Word, Wrap::WordOrGlyph] {
        let spans = spans_of(&glyphs, wrap, 50);
        assert_eq!(spans.len(), 1);
        assert_eq!((spans[0].start, spans[0].end), (0, 0));
    }
}

#[test]
fn word_wrap_breaks_only_at_word_starts() {
    // "aa bb cc" as three two-glyph words of 30px each
    let glyphs = vec![
        glyph(15, false, 0),
        glyph(15, false, 0),
        glyph(15, true, 0),
        glyph(15, false, 0),
        glyph(15, true, 0),
        glyph(15, false, 0),
    ];
    let spans = spans_of(&glyphs, Wrap::Word, 64);
    assert_eq!(spans.len(), 2);
    assert_eq!((spans[0].start, spans[0].end), (0, 4));
    assert_eq!((spans[1].start, spans[1].end), (4, 6));
}

#[test]
fn word_wrap_lets_a_long_word_overflow() {
    // a 90px word alone on its line, no glyph fallback
    let glyphs = vec![
        glyph(30, false, 0),
        glyph(30, false, 0),
        glyph(30, false, 0),
        glyph(10, true, 0),
    ];
    let spans = spans_of(&glyphs, Wrap::Word, 40);
    assert_eq!(spans.len(), 2);
    assert_eq!((spans[0].start, spans[0].end), (0, 3));
    assert_eq!((spans[1].start, spans[1].end), (3, 4));
}

#[test]
fn word_or_glyph_wrap_splits_an_unfittable_word() {
    let glyphs = vec![
        glyph(30, false, 0),
        glyph(30, false, 0),
        glyph(30, false, 0),
        glyph(10, true, 0),
    ];
    let spans = spans_of(&glyphs, Wrap::WordOrGlyph, 40);
    // the 90px word splits at the glyph level; its last piece keeps
    // accepting the following word
    assert_eq!(spans.len(), 3);
    assert_eq!((spans[0].start, spans[0].end), (0, 1));
    assert_eq!((spans[1].start, spans[1].end), (1, 2));
    assert_eq!((spans[2].start, spans[2].end), (2, 4));
}

#[test]
fn bidi_round_trip_swaps_the_rtl_pair() {
    let levels = vec![0u8, 0, 1, 1, 0, 0];
    let order = reorder_line(&levels);
    assert_eq!(order, vec![0, 1, 3, 2, 4, 5]);
}

#[test]
fn bidi_reverses_an_all_rtl_line() {
    let levels = vec![1u8, 1, 1];
    let order = reorder_line(&levels);
    assert_eq!(order, vec![2, 1, 0]);
}

#[test]
fn bidi_keeps_an_ltr_line_in_order() {
    let levels = vec![0u8, 0, 0, 0];
    let order = reorder_line(&levels);
    assert_eq!(order, vec![0, 1, 2, 3]);
}

#[test]
fn bidi_nested_levels_reorder_inside_out() {
    // level 2 run embedded in a level 1 run
    let levels = vec![1u8, 2, 2, 1];
    let order = reorder_line(&levels);
    assert_eq!(order, vec![3, 1, 2, 0]);
}

#[test]
fn reorder_glyphs_moves_glyphs_with_their_levels() {
    let mut a = glyph(10, false, 0);
    a.glyph_id = 1;
    let mut b = glyph(10, false, 1);
    b.glyph_id = 2;
    let mut c = glyph(10, false, 1);
    c.glyph_id = 3;
    let visual = reorder_glyphs(vec![a, b, c]);
    let ids: Vec<u16> = visual.iter().map(|g| g.glyph_id).collect();
    assert_eq!(ids, vec![1, 3, 2]);
}

#[test]
fn height_limit_default_is_one_line() {
    let heights: Vec<i64> = vec![640, 640, 640];
    assert_eq!(resolve_height_limit(HeightLimit::Default, &heights, 0), 1);
}

#[test]
fn height_limit_lines_zero_means_one() {
    let heights: Vec<i64> = Vec::new();
    assert_eq!(resolve_height_limit(HeightLimit::Lines(0), &heights, 0), 1);
    assert_eq!(resolve_height_limit(HeightLimit::Lines(3), &heights, 0), 3);
}

#[test]
fn height_limit_height_counts_fitting_lines() {
    let heights: Vec<i64> = vec![10, 10, 10];
    assert_eq!(resolve_height_limit(HeightLimit::Height, &heights, 25), 2);
    assert_eq!(resolve_height_limit(HeightLimit::Height, &heights, 100), 3);
    // a zero extent degrades to a single line, never to none
    assert_eq!(resolve_height_limit(HeightLimit::Height, &heights, 0), 1);
}

#[test]
fn end_ellipsis_keeps_the_longest_fitting_prefix() {
    let glyphs = vec![
        glyph(20, false, 0),
        glyph(20, false, 0),
        glyph(20, false, 0),
        glyph(20, false, 0),
    ];
    let span = LineSpan { start: 0, end: 4 };
    // 50px available, 15px ellipsis: two 20px glyphs + ellipsis = 55 > 50,
    // so one glyph is kept... 20 + 15 = 35 <= 50, 40 + 15 = 55 > 50
    let e = ellipsize_end_line(&glyphs, span, 50 * SUBUNITS, 15 * SUBUNITS);
    assert_eq!(e, 1);
}

#[test]
fn end_ellipsis_alone_when_nothing_fits() {
    let glyphs = vec![glyph(100, false, 0), glyph(100, false, 0)];
    let span = LineSpan { start: 0, end: 2 };
    let e = ellipsize_end_line(&glyphs, span, 30 * SUBUNITS, 15 * SUBUNITS);
    assert_eq!(e, 0);
}

#[test]
fn start_ellipsis_keeps_the_longest_fitting_suffix() {
    let glyphs = vec![
        glyph(20, false, 0),
        glyph(20, false, 0),
        glyph(20, false, 0),
        glyph(20, false, 0),
    ];
    let s = ellipsize_start(&glyphs, 50 * SUBUNITS, 15 * SUBUNITS);
    assert_eq!(s, 3);
}

#[test]
fn middle_ellipsis_drops_from_the_later_side_first() {
    let glyphs = vec![
        glyph(20, false, 0),
        glyph(20, false, 0),
        glyph(20, false, 0),
        glyph(20, false, 0),
    ];
    // total 80px; 55px available with a 15px ellipsis leaves 40px of
    // glyphs: two drops, the first from the later side (index 2), the
    // second from the earlier side (index 1)
    let (p, q) = ellipsize_middle(&glyphs, 55 * SUBUNITS, 15 * SUBUNITS);
    assert_eq!((p, q), (1, 3));
}

#[test]
fn middle_ellipsis_alternates_sides() {
    let glyphs = vec![
        glyph(20, false, 0),
        glyph(20, false, 0),
        glyph(20, false, 0),
        glyph(20, false, 0),
    ];
    // only 30px available with a 15px ellipsis: everything is dropped,
    // alternating right, left, right, left
    let (p, q) = ellipsize_middle(&glyphs, 30 * SUBUNITS, 15 * SUBUNITS);
    assert_eq!((p, q), (0, 4));
}

#[test]
fn align_offsets_resolve_per_mode() {
    let lw = 40 * SUBUNITS;
    let mw = 100 * SUBUNITS;
    assert_eq!(align_offset(Align::Left, lw, mw, false), 0);
    assert_eq!(align_offset(Align::Right, lw, mw, false), 60 * SUBUNITS);
    assert_eq!(align_offset(Align::Center, lw, mw, false), 30 * SUBUNITS);
    assert_eq!(align_offset(Align::End, lw, mw, false), 60 * SUBUNITS);
    assert_eq!(align_offset(Align::End, lw, mw, true), 0);
}

#[test]
fn align_overflowing_line_goes_negative() {
    let lw = 120 * SUBUNITS;
    let mw = 100 * SUBUNITS;
    assert_eq!(align_offset(Align::Right, lw, mw, false), -20 * SUBUNITS);
    assert_eq!(align_offset(Align::Center, lw, mw, false), -10 * SUBUNITS);
}

#[test]
fn justify_distributes_evenly_with_remainder_last() {
    // three words, two gaps, 7 subunits of leftover: 3 + 4
    let line = vec![
        glyph(10, false, 0),
        glyph(10, true, 0),
        glyph(10, true, 0),
    ];
    assert_eq!(count_gaps(&line), 2);
    let extras = justify_gaps(&line, 30 * SUBUNITS, 30 * SUBUNITS + 7);
    assert_eq!(extras, vec![3, 4]);
}

#[test]
fn justify_single_word_gets_no_stretch() {
    let line = vec![glyph(10, false, 0), glyph(10, false, 0)];
    assert_eq!(count_gaps(&line), 0);
    let extras = justify_gaps(&line, 20 * SUBUNITS, 90 * SUBUNITS);
    assert!(extras.is_empty());
}

#[test]
fn wrap_and_align_labels() {
    assert_eq!(Wrap::NoWrap.label(), "No Wrap");
    assert_eq!(Wrap::Word.label(), "Word Wrap");
    assert_eq!(Wrap::WordOrGlyph.label(), "Word Wrap or Character");
    assert_eq!(Wrap::Glyph.label(), "Character");
    assert_eq!(Align::Left.label(), "Left");
    assert_eq!(Align::Justified.label(), "Justified");
}
