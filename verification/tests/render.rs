use glyph_layout::layout::{layout, LayoutParams};
use glyph_layout::model::{
    Align, CacheKeyFlags, Color, Ellipsize, HeightLimit, LayoutGlyph, ShapedGlyph, Wrap,
    SUBUNITS,
};
use glyph_layout::physical::CacheKey;

fn shaped(advance_px: i64, word_start: bool) -> ShapedGlyph {
    ShapedGlyph {
        start: 0,
        end: 1,
        font_id: 1,
        glyph_id: 7,
        advance: advance_px * SUBUNITS,
        font_size: 16 * SUBUNITS,
        line_height_opt: None,
        ascent: 12 * SUBUNITS,
        descent: 4 * SUBUNITS,
        level: 0,
        x_offset: 0,
        y_offset: 0,
        color_opt: None,
        metadata: 0,
        cache_key_flags: CacheKeyFlags(0),
        word_start,
    }
}

fn laid_out(x: i64, y: i64) -> LayoutGlyph {
    LayoutGlyph {
        start: 0,
        end: 1,
        font_size: 16 * SUBUNITS,
        line_height_opt: None,
        font_id: 1,
        glyph_id: 7,
        x,
        y,
        w: 10 * SUBUNITS,
        level: 0,
        x_offset: 0,
        y_offset: 0,
        color_opt: Some(Color(0xff00ff00)),
        metadata: 3,
        cache_key_flags: CacheKeyFlags(0),
    }
}

fn params(wrap: Wrap, align: Align, ellipsize: Ellipsize, max_px: i64) -> LayoutParams {
    LayoutParams {
        wrap,
        align,
        ellipsize,
        max_width: max_px * SUBUNITS,
        available_height: 0,
        rtl: false,
        justify_last_line: false,
    }
}

#[test]
fn physical_is_deterministic() {
    let g = laid_out(5 * SUBUNITS + 13, 20 * SUBUNITS + 7);
    let offset = (3 * SUBUNITS + 9, -2 * SUBUNITS - 5);
    let scale = 3 * SUBUNITS / 2;
    let p1 = g.physical(offset, scale);
    let p2 = g.physical(offset, scale);
    assert_eq!(p1, p2);
}

#[test]
fn physical_at_unit_scale_truncates_the_origin() {
    // x = 5.5px, y = 20.25px: integer parts 5 and 20
    let g = laid_out(5 * SUBUNITS + 32, 20 * SUBUNITS + 16);
    let p = g.physical((0, 0), SUBUNITS);
    assert_eq!(p.x, 5);
    assert_eq!(p.y, 20);
}

#[test]
fn physical_truncates_toward_zero_for_negative_positions() {
    let g = laid_out(-2 * SUBUNITS - 20, -3 * SUBUNITS - 40);
    let p = g.physical((0, 0), SUBUNITS);
    assert_eq!(p.x, -2);
    assert_eq!(p.y, -3);
}

#[test]
fn physical_applies_scale_and_translation() {
    let g = laid_out(10 * SUBUNITS, 4 * SUBUNITS);
    // scale 2.0, translate by (7px, 1px)
    let p = g.physical((7 * SUBUNITS, SUBUNITS), 2 * SUBUNITS);
    assert_eq!(p.x, 27);
    assert_eq!(p.y, 9);
}

#[test]
fn physical_y_axis_is_snapped_to_whole_pixels() {
    // a fractional y position contributes no sub-pixel bin on the y axis
    let g = laid_out(0, 20 * SUBUNITS + 48);
    let p = g.physical((0, 0), SUBUNITS);
    assert_eq!(p.y, 20);
    assert_eq!(p.cache_key.y_bin, 0);
}

#[test]
fn cache_key_is_stable_for_identical_inputs() {
    let (k1, x1, y1) = CacheKey::new(1, 7, 16 * SUBUNITS, (5 * SUBUNITS + 10, 2 * SUBUNITS), CacheKeyFlags(4));
    let (k2, x2, y2) = CacheKey::new(1, 7, 16 * SUBUNITS, (5 * SUBUNITS + 10, 2 * SUBUNITS), CacheKeyFlags(4));
    assert_eq!(k1, k2);
    assert_eq!((x1, y1), (x2, y2));
}

#[test]
fn cache_key_changes_with_each_component() {
    let base = CacheKey::new(1, 7, 16 * SUBUNITS, (0, 0), CacheKeyFlags(0)).0;
    assert_ne!(CacheKey::new(2, 7, 16 * SUBUNITS, (0, 0), CacheKeyFlags(0)).0, base);
    assert_ne!(CacheKey::new(1, 8, 16 * SUBUNITS, (0, 0), CacheKeyFlags(0)).0, base);
    assert_ne!(CacheKey::new(1, 7, 17 * SUBUNITS, (0, 0), CacheKeyFlags(0)).0, base);
    assert_ne!(CacheKey::new(1, 7, 16 * SUBUNITS, (20, 0), CacheKeyFlags(0)).0, base);
    assert_ne!(CacheKey::new(1, 7, 16 * SUBUNITS, (0, 0), CacheKeyFlags(1)).0, base);
}

#[test]
fn cache_key_collapses_positions_within_one_bin() {
    // sub-pixel remainders 0 and 10 fall into the same quarter-pixel bin
    let a = CacheKey::new(1, 7, 16 * SUBUNITS, (5 * SUBUNITS, 0), CacheKeyFlags(0)).0;
    let b = CacheKey::new(1, 7, 16 * SUBUNITS, (5 * SUBUNITS + 10, 0), CacheKeyFlags(0)).0;
    assert_eq!(a.x_bin, b.x_bin);
    // remainder 20 falls into the next bin
    let c = CacheKey::new(1, 7, 16 * SUBUNITS, (5 * SUBUNITS + 20, 0), CacheKeyFlags(0)).0;
    assert_ne!(a.x_bin, c.x_bin);
}

#[test]
fn layout_places_glyphs_left_to_right() {
    let glyphs = vec![shaped(10, false), shaped(20, false), shaped(5, false)];
    let lines = layout(
        &glyphs,
        params(Wrap::NoWrap, Align::Left, Ellipsize::NoEllipsis, 100),
        shaped(15, false),
    );
    assert_eq!(lines.len(), 1);
    let line = &lines[0];
    assert_eq!(line.glyphs.len(), 3);
    assert_eq!(line.w, 35 * SUBUNITS);
    assert_eq!(line.max_ascent, 12 * SUBUNITS);
    assert_eq!(line.max_descent, 4 * SUBUNITS);
    assert_eq!(line.glyphs[0].x, 0);
    assert_eq!(line.glyphs[1].x, 10 * SUBUNITS);
    assert_eq!(line.glyphs[2].x, 30 * SUBUNITS);
    // baseline sits at the maximum ascent
    assert_eq!(line.glyphs[0].y, 12 * SUBUNITS);
    assert_eq!(line.glyphs[0].w, 10 * SUBUNITS);
}

#[test]
fn layout_empty_paragraph_yields_one_empty_line() {
    let glyphs: Vec<ShapedGlyph> = Vec::new();
    let lines = layout(
        &glyphs,
        params(Wrap::Word, Align::Left, Ellipsize::NoEllipsis, 100),
        shaped(15, false),
    );
    assert_eq!(lines.len(), 1);
    assert!(lines[0].glyphs.is_empty());
    assert_eq!(lines[0].w, 0);
}

#[test]
fn layout_right_align_offsets_the_line() {
    let glyphs = vec![shaped(10, false), shaped(10, false)];
    let lines = layout(
        &glyphs,
        params(Wrap::NoWrap, Align::Right, Ellipsize::NoEllipsis, 100),
        shaped(15, false),
    );
    assert_eq!(lines[0].glyphs[0].x, 80 * SUBUNITS);
    assert_eq!(lines[0].glyphs[1].x, 90 * SUBUNITS);
}

#[test]
fn layout_justified_fills_the_width() {
    // two words of 10px, target 100px: the gap stretches by 80px
    let glyphs = vec![shaped(10, false), shaped(10, true)];
    let lines = layout(
        &glyphs,
        params(Wrap::NoWrap, Align::Justified, Ellipsize::NoEllipsis, 100),
        shaped(15, false),
    );
    // the paragraph's only line is also its last: exempt by default
    assert_eq!(lines[0].glyphs[0].x, 0);
    assert_eq!(lines[0].glyphs[1].x, 10 * SUBUNITS);

    let mut p = params(Wrap::NoWrap, Align::Justified, Ellipsize::NoEllipsis, 100);
    p.justify_last_line = true;
    let stretched = layout(&glyphs, p, shaped(15, false));
    assert_eq!(stretched[0].glyphs[0].x, 0);
    assert_eq!(stretched[0].glyphs[1].x, 90 * SUBUNITS);
    assert_eq!(stretched[0].w, 100 * SUBUNITS);
}

#[test]
fn layout_justified_single_word_matches_left() {
    let glyphs = vec![shaped(10, false), shaped(10, false)];
    let mut pj = params(Wrap::NoWrap, Align::Justified, Ellipsize::NoEllipsis, 100);
    pj.justify_last_line = true;
    let justified = layout(&glyphs, pj, shaped(15, false));
    let left = layout(
        &glyphs,
        params(Wrap::NoWrap, Align::Left, Ellipsize::NoEllipsis, 100),
        shaped(15, false),
    );
    for (a, b) in justified[0].glyphs.iter().zip(left[0].glyphs.iter()) {
        assert_eq!(a.x, b.x);
        assert_eq!(a.y, b.y);
    }
}

#[test]
fn layout_end_ellipsis_caps_the_line_count() {
    // four 20px glyphs, 30px lines: glyph wrap yields 4 candidate lines
    let glyphs = vec![
        shaped(20, false),
        shaped(20, false),
        shaped(20, false),
        shaped(20, false),
    ];
    let lines = layout(
        &glyphs,
        params(
            Wrap::Glyph,
            Align::Left,
            Ellipsize::End(HeightLimit::Lines(2)),
            30,
        ),
        shaped(5, false),
    );
    assert_eq!(lines.len(), 2);
    // the last kept line holds one glyph plus the 5px ellipsis
    assert_eq!(lines[1].glyphs.len(), 2);
    assert_eq!(lines[1].w, 25 * SUBUNITS);
    assert!(lines[1].w <= 30 * SUBUNITS);
}

#[test]
fn layout_end_ellipsis_width_stays_within_bounds() {
    let glyphs = vec![
        shaped(25, false),
        shaped(25, false),
        shaped(25, false),
        shaped(25, false),
    ];
    let lines = layout(
        &glyphs,
        params(
            Wrap::Glyph,
            Align::Left,
            Ellipsize::End(HeightLimit::Default),
            60,
        ),
        shaped(10, false),
    );
    assert_eq!(lines.len(), 1);
    assert!(lines[0].w <= 60 * SUBUNITS);
}

#[test]
fn layout_ellipsis_overflows_rather_than_vanishing() {
    // the ellipsis is wider than the line: it is still emitted
    let glyphs = vec![shaped(50, false), shaped(50, false)];
    let lines = layout(
        &glyphs,
        params(
            Wrap::Glyph,
            Align::Left,
            Ellipsize::End(HeightLimit::Default),
            20,
        ),
        shaped(30, false),
    );
    assert_eq!(lines.len(), 1);
    assert_eq!(lines[0].glyphs.len(), 1);
    assert_eq!(lines[0].w, 30 * SUBUNITS);
}

#[test]
fn layout_start_ellipsis_collapses_to_one_line() {
    let glyphs = vec![
        shaped(20, false),
        shaped(20, false),
        shaped(20, false),
        shaped(20, false),
    ];
    let lines = layout(
        &glyphs,
        params(Wrap::Glyph, Align::Left, Ellipsize::Start, 30),
        shaped(5, false),
    );
    assert_eq!(lines.len(), 1);
    // the ellipsis leads, followed by the suffix that fits: 5 + 20 <= 30
    assert_eq!(lines[0].glyphs.len(), 2);
    assert_eq!(lines[0].glyphs[0].w, 5 * SUBUNITS);
    assert_eq!(lines[0].w, 25 * SUBUNITS);
}

#[test]
fn layout_middle_ellipsis_collapses_to_one_line() {
    let glyphs = vec![
        shaped(20, false),
        shaped(20, false),
        shaped(20, false),
        shaped(20, false),
    ];
    let lines = layout(
        &glyphs,
        params(Wrap::Glyph, Align::Left, Ellipsize::Middle, 50),
        shaped(5, false),
    );
    assert_eq!(lines.len(), 1);
    // 45px of glyphs + 5px ellipsis fit in 50px: one glyph kept per side
    assert_eq!(lines[0].glyphs.len(), 3);
    assert_eq!(lines[0].w, 45 * SUBUNITS);
}

#[test]
fn layout_preserves_every_glyph_without_ellipsis() {
    let glyphs: Vec<ShapedGlyph> = (0..13).map(|i| shaped(10, i % 3 == 0)).collect();
    let lines = layout(
        &glyphs,
        params(Wrap::Word, Align::Left, Ellipsize::NoEllipsis, 25),
        shaped(5, false),
    );
    let total: usize = lines.iter().map(|l| l.glyphs.len()).sum();
    assert_eq!(total, 13);
}

#[test]
fn layout_line_height_override_is_carried() {
    let mut g = shaped(10, false);
    g.line_height_opt = Some(40 * SUBUNITS);
    let lines = layout(
        &vec![g, shaped(10, false)],
        params(Wrap::NoWrap, Align::Left, Ellipsize::NoEllipsis, 100),
        shaped(5, false),
    );
    assert_eq!(lines[0].line_height_opt, Some(40 * SUBUNITS));
}

#[test]
fn layout_rtl_line_reverses_visual_order() {
    let mut a = shaped(10, false);
    a.glyph_id = 1;
    a.level = 1;
    let mut b = shaped(10, false);
    b.glyph_id = 2;
    b.level = 1;
    let lines = layout(
        &vec![a, b],
        params(Wrap::NoWrap, Align::Left, Ellipsize::NoEllipsis, 100),
        shaped(5, false),
    );
    let ids: Vec<u16> = lines[0].glyphs.iter().map(|g| g.glyph_id).collect();
    assert_eq!(ids, vec![2, 1]);
}

#[test]
fn layout_height_limit_counts_fitting_lines() {
    // 16px lines (12 ascent + 4 descent); 40px of vertical space fits two
    let glyphs = vec![
        shaped(20, false),
        shaped(20, false),
        shaped(20, false),
        shaped(20, false),
    ];
    let mut p = params(
        Wrap::Glyph,
        Align::Left,
        Ellipsize::End(HeightLimit::Height),
        20,
    );
    p.available_height = 40 * SUBUNITS;
    let lines = layout(&glyphs, p, shaped(5, false));
    assert_eq!(lines.len(), 2);
}

#[test]
fn layout_height_limit_zero_extent_keeps_one_line() {
    let glyphs = vec![shaped(20, false), shaped(20, false)];
    let p = params(
        Wrap::Glyph,
        Align::Left,
        Ellipsize::End(HeightLimit::Height),
        20,
    );
    let lines = layout(&glyphs, p, shaped(5, false));
    assert_eq!(lines.len(), 1);
}

#[test]
fn layout_center_align_halves_the_leftover() {
    let glyphs = vec![shaped(10, false), shaped(10, false)];
    let lines = layout(
        &glyphs,
        params(Wrap::NoWrap, Align::Center, Ellipsize::NoEllipsis, 100),
        shaped(5, false),
    );
    assert_eq!(lines[0].glyphs[0].x, 40 * SUBUNITS);
}

#[test]
fn layout_end_align_follows_base_direction() {
    let glyphs = vec![shaped(10, false)];
    let ltr = layout(
        &glyphs,
        params(Wrap::NoWrap, Align::End, Ellipsize::NoEllipsis, 100),
        shaped(5, false),
    );
    assert_eq!(ltr[0].glyphs[0].x, 90 * SUBUNITS);
    let mut p = params(Wrap::NoWrap, Align::End, Ellipsize::NoEllipsis, 100);
    p.rtl = true;
    let rtl = layout(&glyphs, p, shaped(5, false));
    assert_eq!(rtl[0].glyphs[0].x, 0);
}

#[test]
fn layout_justified_single_rtl_word_never_stretched() {
    // one right-to-left word whose first glyph carries the word-start
    // flag, as shaping marks every word: no inter-word gap, no stretch
    let mut a = shaped(10, true);
    a.glyph_id = 1;
    a.level = 1;
    let mut b = shaped(10, false);
    b.glyph_id = 2;
    b.level = 1;
    let glyphs = vec![a, b];
    let mut pj = params(Wrap::NoWrap, Align::Justified, Ellipsize::NoEllipsis, 100);
    pj.rtl = true;
    pj.justify_last_line = true;
    let justified = layout(&glyphs, pj, shaped(15, false));
    let mut pr = params(Wrap::NoWrap, Align::Right, Ellipsize::NoEllipsis, 100);
    pr.rtl = true;
    let right = layout(&glyphs, pr, shaped(15, false));
    assert_eq!(justified[0].w, 20 * SUBUNITS);
    for (x, y) in justified[0].glyphs.iter().zip(right[0].glyphs.iter()) {
        assert_eq!(x.glyph_id, y.glyph_id);
        assert_eq!(x.x, y.x);
    }
    // the base-direction fallback is the right edge
    assert_eq!(justified[0].glyphs[0].x, 80 * SUBUNITS);
}

#[test]
fn layout_justified_rtl_line_stretches_between_words() {
    // two right-to-left words: one gap; the extra space lands between the
    // words in visual order, not inside either
    let mut a = shaped(10, true);
    a.glyph_id = 1;
    a.level = 1;
    let mut b = shaped(10, true);
    b.glyph_id = 2;
    b.level = 1;
    let glyphs = vec![a, b];
    let mut pj = params(Wrap::NoWrap, Align::Justified, Ellipsize::NoEllipsis, 100);
    pj.rtl = true;
    pj.justify_last_line = true;
    let lines = layout(&glyphs, pj, shaped(15, false));
    // visually the logically later word comes first
    let ids: Vec<u16> = lines[0].glyphs.iter().map(|g| g.glyph_id).collect();
    assert_eq!(ids, vec![2, 1]);
    assert_eq!(lines[0].glyphs[0].x, 0);
    assert_eq!(lines[0].glyphs[1].x, 90 * SUBUNITS);
    assert_eq!(lines[0].w, 100 * SUBUNITS);
}

#[test]
fn layout_justified_flagged_single_ltr_word_not_stretched() {
    // the flag on a line's very first glyph opens no gap
    let glyphs = vec![shaped(10, true), shaped(10, false)];
    let mut pj = params(Wrap::NoWrap, Align::Justified, Ellipsize::NoEllipsis, 100);
    pj.justify_last_line = true;
    let justified = layout(&glyphs, pj, shaped(15, false));
    let left = layout(
        &glyphs,
        params(Wrap::NoWrap, Align::Left, Ellipsize::NoEllipsis, 100),
        shaped(15, false),
    );
    for (x, y) in justified[0].glyphs.iter().zip(left[0].glyphs.iter()) {
        assert_eq!(x.x, y.x);
    }
    assert_eq!(justified[0].w, 20 * SUBUNITS);
}

#[test]
fn layout_justified_mixed_direction_gap_at_run_boundary() {
    // a left-to-right word followed by a right-to-left word: the single
    // gap sits at the direction change
    let mut a = shaped(10, false);
    a.glyph_id = 1;
    let mut b = shaped(10, true);
    b.glyph_id = 2;
    b.level = 1;
    let glyphs = vec![a, b];
    let mut pj = params(Wrap::NoWrap, Align::Justified, Ellipsize::NoEllipsis, 100);
    pj.justify_last_line = true;
    let lines = layout(&glyphs, pj, shaped(15, false));
    let ids: Vec<u16> = lines[0].glyphs.iter().map(|g| g.glyph_id).collect();
    assert_eq!(ids, vec![1, 2]);
    assert_eq!(lines[0].glyphs[0].x, 0);
    assert_eq!(lines[0].glyphs[1].x, 90 * SUBUNITS);
    assert_eq!(lines[0].w, 100 * SUBUNITS);
}
