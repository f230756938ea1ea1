//! Physical addressing: projects a laid-out glyph, under a caller-supplied
//! render scale and translation, to integer pixel offsets plus a quantized
//! cache key for the rasterizer's bitmap cache.
//!
//! The vertical coordinate is truncated to a whole pixel before key
//! generation: a deliberate hinting choice that snaps baselines to the pixel
//! grid on the Y axis only, while the X axis keeps sub-pixel precision,
//! quantized into four bins for cache addressing.

use vstd::prelude::*;

use crate::model::{
    CacheKeyFlags, LayoutGlyph, MAX_EM_OFFSET, MAX_FONT_SIZE, MAX_POS, MAX_RENDER_OFFSET,
    MAX_SCALE, wf_layout_glyph,
};

verus! {

/// Truncating division by `SUBUNITS` (toward zero): the integer pixel part
/// of a subunit coordinate.
pub open spec fn trunc_px(v: int) -> int {
    if v >= 0 {
        v / 64
    } else {
        -((-v) / 64)
    }
}

/// Magnitude of the sub-pixel remainder of a subunit coordinate, in `0..64`.
pub open spec fn frac_mag(v: int) -> int {
    if v >= 0 {
        v % 64
    } else {
        (-v) % 64
    }
}

/// Sub-pixel bin of a subunit coordinate: the fractional part bucketed into
/// four quarters, bounding the cache's cardinality.
pub open spec fn sub_bin(v: int) -> int {
    frac_mag(v) / 16
}

/// Font size rounded to whole pixels for cache addressing.
pub open spec fn round_px(v: int) -> int {
    (v + 32) / 64
}

/// Fixed-point product of two subunit quantities, truncated toward zero.
pub open spec fn fmul(a: int, b: int) -> int {
    if a * b >= 0 {
        (a * b) / 64
    } else {
        -((-(a * b)) / 64)
    }
}

/// A quantized identifier of "this glyph outline at this font, size,
/// sub-pixel position, and rendering-flag combination": the addressing
/// scheme a rasterization cache keys bitmaps by.
#[derive(Clone, Copy, Debug, PartialEq, Eq, Hash, Structural)]
pub struct CacheKey {
    /// Numeric key of the face in the external font database.
    pub font_id: u32,
    /// Glyph index within the face.
    pub glyph_id: u16,
    /// Font size rounded to whole pixels.
    pub font_size_px: u32,
    /// Sub-pixel bin of the X coordinate, in `0..4`.
    pub x_bin: u8,
    /// Sub-pixel bin of the Y coordinate, in `0..4`.
    pub y_bin: u8,
    /// Rendering hints that affect rasterization.
    pub flags: CacheKeyFlags,
}

/// The cache key determined by a glyph's identity, scaled font size,
/// sub-pixel position, and flags.
pub open spec fn spec_cache_key(
    font_id: u32,
    glyph_id: u16,
    font_size: int,
    px: int,
    py: int,
    flags: CacheKeyFlags,
) -> CacheKey {
    CacheKey {
        font_id,
        glyph_id,
        font_size_px: round_px(font_size) as u32,
        x_bin: sub_bin(px) as u8,
        y_bin: sub_bin(py) as u8,
        flags,
    }
}

/// Truncating division of a subunit coordinate by `SUBUNITS`.
fn tdiv_subunits(v: i64) -> (r: i64)
    requires
        -0x4000_0000_0000_0000 <= v <= 0x4000_0000_0000_0000,
    ensures
        r == trunc_px(v as int),
{
    if v >= 0 {
        ((v as u64) / 64) as i64
    } else {
        let m = -v;
        -(((m as u64) / 64) as i64)
    }
}

/// Fixed-point multiply of two subunit quantities, truncating toward zero.
fn fixed_mul(a: i64, b: i64) -> (r: i64)
    requires
        -0x4000_0000_0000_0000 <= a * b <= 0x4000_0000_0000_0000,
    ensures
        r == fmul(a as int, b as int),
{
    tdiv_subunits(a * b)
}

impl CacheKey {
    /// Builds the cache key for a glyph at a sub-pixel position, returning
    /// the key together with the exact integer pixel components of the
    /// position (these are not quantized, so the rasterizer can place the
    /// cached bitmap precisely).
    pub fn new(
        font_id: u32,
        glyph_id: u16,
        font_size: i64,
        pos: (i64, i64),
        flags: CacheKeyFlags,
    ) -> (r: (CacheKey, i64, i64))
        requires
            0 <= font_size <= 0x4_0000_0000,
            -0x100_0000_0000_0000 <= pos.0 <= 0x100_0000_0000_0000,
            -0x100_0000_0000_0000 <= pos.1 <= 0x100_0000_0000_0000,
        ensures
            r.0 == spec_cache_key(
                font_id,
                glyph_id,
                font_size as int,
                pos.0 as int,
                pos.1 as int,
                flags,
            ),
            r.1 == trunc_px(pos.0 as int),
            r.2 == trunc_px(pos.1 as int),
    {
        let x_int = tdiv_subunits(pos.0);
        let y_int = tdiv_subunits(pos.1);
        let x_rem: i64 = if pos.0 >= 0 {
            pos.0 - x_int * 64
        } else {
            (-pos.0) - (-x_int) * 64
        };
        let y_rem: i64 = if pos.1 >= 0 {
            pos.1 - y_int * 64
        } else {
            (-pos.1) - (-y_int) * 64
        };
        assert(x_rem == frac_mag(pos.0 as int));
        assert(y_rem == frac_mag(pos.1 as int));
        let font_size_px = (((font_size + 32) as u64) / 64) as u32;
        let key = CacheKey {
            font_id,
            glyph_id,
            font_size_px,
            x_bin: ((x_rem as u64) / 16) as u8,
            y_bin: ((y_rem as u64) / 16) as u8,
            flags,
        };
        (key, x_int, y_int)
    }
}

/// The render-time projection of a laid-out glyph: exact integer pixel
/// offsets plus the quantized cache key. Ephemeral: recomputed every render
/// call, never persisted as part of the layout.
#[derive(Clone, Copy, Debug, PartialEq, Eq, Structural)]
pub struct PhysicalGlyph {
    /// Cache key addressing the rasterized bitmap.
    pub cache_key: CacheKey,
    /// Integer pixel component of the X offset in the line.
    pub x: i64,
    /// Integer pixel component of the Y offset in the line.
    pub y: i64,
}

/// The sub-pixel X position of a glyph under a render translation and
/// scale: hitbox origin plus the em-scaled nudge, scaled, then translated.
pub open spec fn spec_px(g: LayoutGlyph, offset: (i64, i64), scale: i64) -> int {
    fmul(g.x + fmul(g.font_size as int, g.x_offset as int), scale as int) + offset.0
}

/// The sub-pixel Y position of a glyph, truncated to a whole pixel before
/// key generation (hinting on the Y axis).
pub open spec fn spec_py(g: LayoutGlyph, offset: (i64, i64), scale: i64) -> int {
    trunc_px(fmul(g.y - fmul(g.font_size as int, g.y_offset as int), scale as int) + offset.1)
        * 64
}

/// The physical projection of a glyph: a pure function of the glyph and the
/// caller-supplied render parameters alone.
pub open spec fn spec_physical(g: LayoutGlyph, offset: (i64, i64), scale: i64) -> PhysicalGlyph {
    PhysicalGlyph {
        cache_key: spec_cache_key(
            g.font_id,
            g.glyph_id,
            fmul(g.font_size as int, scale as int),
            spec_px(g, offset, scale),
            spec_py(g, offset, scale),
            g.cache_key_flags,
        ),
        x: trunc_px(spec_px(g, offset, scale)) as i64,
        y: trunc_px(spec_py(g, offset, scale)) as i64,
    }
}

/// `fmul` of bounded factors is bounded.
proof fn lemma_fmul_bounds(a: int, b: int, ba: int, bb: int)
    requires
        0 <= ba,
        0 <= bb,
        -ba <= a <= ba,
        -bb <= b <= bb,
    ensures
        -(ba * bb) <= a * b <= ba * bb,
        -(ba * bb) <= fmul(a, b) <= ba * bb,
    {
    assert(-(ba * bb) <= a * b <= ba * bb) by (nonlinear_arith)
        requires
            -ba <= a <= ba,
            -bb <= b <= bb,
            0 <= ba,
            0 <= bb,
    ;
    if a * b >= 0 {
        assert(0 <= (a * b) / 64 <= a * b);
    } else {
        assert(0 <= (-(a * b)) / 64 <= -(a * b));
    }
}

/// Truncation toward zero shrinks magnitude: both the pixel part and its
/// value in subunits stay within the coordinate's own bound.
proof fn lemma_trunc_px_mag(v: int, b: int)
    requires
        0 <= b,
        -b <= v <= b,
    ensures
        -b <= trunc_px(v) <= b,
        -b <= trunc_px(v) * 64 <= b,
{
    if v >= 0 {
        assert(0 <= v / 64 <= v);
        assert((v / 64) * 64 <= v);
    } else {
        assert(0 <= (-v) / 64 <= -v);
        assert(((-v) / 64) * 64 <= -v);
    }
}

impl LayoutGlyph {
    /// Projects this glyph to physical pixel coordinates and a cache key
    /// under the given render translation (subunits) and scale (64 = 1.0).
    ///
    /// Pure and allocation-free; the result is determined by the inputs
    /// alone, so repeated calls agree bit for bit.
    pub fn physical(&self, offset: (i64, i64), scale: i64) -> (r: PhysicalGlyph)
        requires
            wf_layout_glyph(*self),
            0 <= scale <= MAX_SCALE,
            -MAX_RENDER_OFFSET <= offset.0 <= MAX_RENDER_OFFSET,
            -MAX_RENDER_OFFSET <= offset.1 <= MAX_RENDER_OFFSET,
        ensures
            r == spec_physical(*self, offset, scale),
    {
        proof {
            lemma_fmul_bounds(
                self.font_size as int,
                self.x_offset as int,
                MAX_FONT_SIZE as int,
                MAX_EM_OFFSET as int,
            );
            lemma_fmul_bounds(
                self.font_size as int,
                self.y_offset as int,
                MAX_FONT_SIZE as int,
                MAX_EM_OFFSET as int,
            );
        }
        let x_nudge = fixed_mul(self.font_size, self.x_offset);
        let y_nudge = fixed_mul(self.font_size, self.y_offset);
        proof {
            lemma_fmul_bounds(
                self.x + x_nudge,
                scale as int,
                0x2_0000_0000,
                MAX_SCALE as int,
            );
            lemma_fmul_bounds(
                self.y - y_nudge,
                scale as int,
                0x2_0000_0000,
                MAX_SCALE as int,
            );
            lemma_fmul_bounds(
                self.font_size as int,
                scale as int,
                MAX_FONT_SIZE as int,
                MAX_SCALE as int,
            );
            assert(fmul(self.font_size as int, scale as int) >= 0) by {
                assert(self.font_size as int * scale as int >= 0) by (nonlinear_arith)
                    requires
                        self.font_size >= 0,
                        scale >= 0,
                ;
            }
        }
        let px = fixed_mul(self.x + x_nudge, scale) + offset.0;
        let y_scaled = fixed_mul(self.y - y_nudge, scale) + offset.1;
        let y_whole = tdiv_subunits(y_scaled);
        proof {
            lemma_trunc_px_mag(y_scaled as int, 0x80_0000_0000_0000);
        }
        let py = y_whole * 64;
        let (cache_key, x, y) = CacheKey::new(
            self.font_id,
            self.glyph_id,
            fixed_mul(self.font_size, scale),
            (px, py),
            self.cache_key_flags,
        );
        PhysicalGlyph { cache_key, x, y }
    }
}

/// Physical determinism: the projection is a pure function of the glyph and
/// the render parameters alone, so any two results computed from identical
/// inputs are bit-identical.
pub proof fn lemma_physical_deterministic(
    g: LayoutGlyph,
    offset: (i64, i64),
    scale: i64,
    r1: PhysicalGlyph,
    r2: PhysicalGlyph,
)
    requires
        r1 == spec_physical(g, offset, scale),
        r2 == spec_physical(g, offset, scale),
    ensures
        r1 == r2,
{
}

/// With no render translation, unit scale, and no glyph nudges, the
/// physical position is exactly the truncated hitbox origin.
pub proof fn lemma_physical_identity(g: LayoutGlyph)
    requires
        wf_layout_glyph(g),
        g.x_offset == 0,
        g.y_offset == 0,
    ensures
        spec_physical(g, (0i64, 0i64), 64i64).x == trunc_px(g.x as int),
        spec_physical(g, (0i64, 0i64), 64i64).y == trunc_px(g.y as int),
{
    assert(fmul(g.font_size as int, 0) == 0);
    assert(fmul(g.x as int, 64) == g.x as int) by {
        if g.x >= 0 {
            assert((g.x as int * 64) / 64 == g.x as int);
        } else {
            assert((-(g.x as int * 64)) == (-g.x) as int * 64);
            assert(((-g.x) as int * 64) / 64 == (-g.x) as int);
        }
    }
    assert(fmul(g.y as int, 64) == g.y as int) by {
        if g.y >= 0 {
            assert((g.y as int * 64) / 64 == g.y as int);
        } else {
            assert((-(g.y as int * 64)) == (-g.y) as int * 64);
            assert(((-g.y) as int * 64) / 64 == (-g.y) as int);
        }
    }
    assert(spec_px(g, (0i64, 0i64), 64i64) == g.x as int);
    let t = trunc_px(g.y as int);
    assert(spec_py(g, (0i64, 0i64), 64i64) == t * 64);
    assert(trunc_px(t * 64) == t) by {
        if t >= 0 {
            assert((t * 64) / 64 == t);
        } else {
            assert(-(t * 64) == (-t) * 64);
            assert(((-t) * 64) / 64 == -t);
        }
    }
}

/// Cache-key stability: two glyphs that agree on font id, glyph id, scaled
/// font size, sub-pixel position bins, and flags get equal cache keys.
pub proof fn lemma_cache_key_stability(
    font_id: u32,
    glyph_id: u16,
    size1: int,
    size2: int,
    px1: int,
    px2: int,
    py1: int,
    py2: int,
    flags: CacheKeyFlags,
)
    requires
        round_px(size1) == round_px(size2),
        sub_bin(px1) == sub_bin(px2),
        sub_bin(py1) == sub_bin(py2),
    ensures
        spec_cache_key(font_id, glyph_id, size1, px1, py1, flags) == spec_cache_key(
            font_id,
            glyph_id,
            size2,
            px2,
            py2,
            flags,
        ),
{
}

/// Cache-key sensitivity: within the accepted ranges, two cache keys are
/// equal exactly when every keyed component agrees — so changing the font
/// id, the glyph id, the pixel-rounded font size, a sub-pixel bin, or the
/// flags changes the key.
pub proof fn lemma_cache_key_sensitivity(
    f1: u32,
    f2: u32,
    g1: u16,
    g2: u16,
    s1: int,
    s2: int,
    px1: int,
    px2: int,
    py1: int,
    py2: int,
    fl1: CacheKeyFlags,
    fl2: CacheKeyFlags,
)
    requires
        0 <= s1 <= 0x4_0000_0000,
        0 <= s2 <= 0x4_0000_0000,
    ensures
        (spec_cache_key(f1, g1, s1, px1, py1, fl1) == spec_cache_key(f2, g2, s2, px2, py2, fl2))
            <==> (f1 == f2 && g1 == g2 && round_px(s1) == round_px(s2) && sub_bin(px1) == sub_bin(
            px2,
        ) && sub_bin(py1) == sub_bin(py2) && fl1 == fl2),
{
    assert(0 <= round_px(s1) < 0x1_0000_0000);
    assert(0 <= round_px(s2) < 0x1_0000_0000);
    assert(0 <= sub_bin(px1) < 4);
    assert(0 <= sub_bin(px2) < 4);
    assert(0 <= sub_bin(py1) < 4);
    assert(0 <= sub_bin(py2) < 4);
}

} // verus!
