//! Data model: shaped-glyph input, policy enums, and well-formedness.
//!
//! All geometry is fixed-point: `SUBUNITS` logical subunits make one pixel.
//! Font identifiers are the plain numeric keys handed out by the font
//! database stage; embedding levels are the plain numeric levels assigned by
//! the bidirectional algorithm (even = left-to-right, odd = right-to-left).

use vstd::prelude::*;

verus! {

/// Number of logical subunits per pixel.
pub const SUBUNITS: i64 = 64;

/// Largest advance/coordinate magnitude accepted, in subunits.
pub const MAX_DIM: i64 = 0x4000_0000;

/// Largest number of glyphs accepted in one paragraph.
pub const MAX_GLYPHS: usize = 0x4000_0000;

/// Largest font size accepted, in subunits.
pub const MAX_FONT_SIZE: i64 = 0x10_0000;

/// Largest magnitude of a per-glyph em-relative offset, in subunits per em.
pub const MAX_EM_OFFSET: i64 = 0x1000;

/// Largest height of a single line, in subunits.
pub const MAX_LINE_HEIGHT: i64 = 0x8000_0000;

/// Highest bidirectional embedding level.
pub const MAX_LEVEL: u8 = 125;

/// Largest magnitude of a laid-out glyph position, in subunits.
pub const MAX_POS: i64 = 0x1_0000_0000;

/// Largest render scale accepted, in subunits per unit (64 = 1.0).
pub const MAX_SCALE: i64 = 0x10_0000;

/// Largest magnitude of a render-time translation, in subunits.
pub const MAX_RENDER_OFFSET: i64 = 0x100_0000_0000;

/// An RGBA color override.
#[derive(Clone, Copy, Debug, PartialEq, Eq, Structural)]
pub struct Color(pub u32);

/// Rendering hints that affect rasterization and therefore cache addressing.
#[derive(Clone, Copy, Debug, PartialEq, Eq, Hash, Structural)]
pub struct CacheKeyFlags(pub u32);

/// A shaped glyph: the input contract from the shaping stage.
///
/// Immutable once produced by shaping. `font_id` is the numeric key of the
/// face in the external font database (never zero). `level` is the Unicode
/// bidirectional embedding level; the glyph is left-to-right when `level` is
/// even. `word_start` marks the first glyph of a word (a line-break and
/// justification boundary).
#[derive(Clone, Copy, Debug)]
pub struct ShapedGlyph {
    /// Start byte of the cluster in the source text line.
    pub start: usize,
    /// End byte of the cluster in the source text line.
    pub end: usize,
    /// Numeric key of the face in the external font database; never zero.
    pub font_id: u32,
    /// Glyph index within the face.
    pub glyph_id: u16,
    /// Advance width, in subunits; never negative.
    pub advance: i64,
    /// Font size, in subunits; positive.
    pub font_size: i64,
    /// Optional per-glyph line-height override, in subunits.
    pub line_height_opt: Option<i64>,
    /// Ascent of the glyph's face at `font_size`, in subunits.
    pub ascent: i64,
    /// Descent of the glyph's face at `font_size`, in subunits.
    pub descent: i64,
    /// Bidirectional embedding level; even = left-to-right.
    pub level: u8,
    /// X nudge relative to the pen position, in subunits per em.
    pub x_offset: i64,
    /// Y nudge relative to the baseline, in subunits per em.
    pub y_offset: i64,
    /// Optional color override.
    pub color_opt: Option<Color>,
    /// Opaque metadata tag carried through from the text attributes.
    pub metadata: usize,
    /// Rendering hints that affect cache addressing.
    pub cache_key_flags: CacheKeyFlags,
    /// True when this glyph begins a new word.
    pub word_start: bool,
}

/// Input contract on a single shaped glyph: non-degenerate cluster, non-empty
/// font id, positive bounded font size, bounded non-negative metrics, a legal
/// embedding level, and bounded nudges.
pub open spec fn wf_glyph(g: ShapedGlyph) -> bool {
    &&& g.start < g.end
    &&& g.font_id != 0
    &&& 0 <= g.advance <= MAX_DIM
    &&& 0 < g.font_size <= MAX_FONT_SIZE
    &&& (g.line_height_opt matches Some(h) ==> 0 <= h <= MAX_DIM)
    &&& 0 <= g.ascent <= MAX_DIM
    &&& 0 <= g.descent <= MAX_DIM
    &&& g.level <= MAX_LEVEL
    &&& -MAX_EM_OFFSET <= g.x_offset <= MAX_EM_OFFSET
    &&& -MAX_EM_OFFSET <= g.y_offset <= MAX_EM_OFFSET
}

/// Input contract on a whole paragraph of shaped glyphs.
pub open spec fn wf_glyphs(glyphs: Seq<ShapedGlyph>) -> bool {
    &&& glyphs.len() <= MAX_GLYPHS
    &&& forall|i: int| 0 <= i < glyphs.len() ==> wf_glyph(#[trigger] glyphs[i])
}

/// Wrapping mode.
#[derive(Debug, Eq, PartialEq, Clone, Copy, Structural)]
pub enum Wrap {
    /// No wrapping: the whole paragraph stays on one line.
    NoWrap,
    /// Wraps at the glyph level.
    Glyph,
    /// Wraps at the word level.
    Word,
    /// Wraps at the word level, falling back to the glyph level for a word
    /// that cannot fit on a line by itself.
    WordOrGlyph,
}

impl Wrap {
    /// Human-readable name of the wrapping mode.
    pub fn label(&self) -> (r: &'static str)
        ensures
            r@ == match self {
                Wrap::NoWrap => "No Wrap"@,
                Wrap::Word => "Word Wrap"@,
                Wrap::WordOrGlyph => "Word Wrap or Character"@,
                Wrap::Glyph => "Character"@,
            },
    {
        match self {
            Wrap::NoWrap => "No Wrap",
            Wrap::Word => "Word Wrap",
            Wrap::WordOrGlyph => "Word Wrap or Character",
            Wrap::Glyph => "Character",
        }
    }
}

/// The maximum allowed number of lines before ellipsizing.
#[derive(Debug, Eq, PartialEq, Clone, Copy, Structural)]
pub enum HeightLimit {
    /// A single line.
    Default,
    /// A fixed number of lines; `Lines(0)` means the same as `Lines(1)`.
    Lines(u8),
    /// As many lines as fit in the caller-supplied vertical extent.
    Height,
}

/// Ellipsize mode.
#[derive(Debug, Eq, PartialEq, Clone, Copy, Structural)]
pub enum Ellipsize {
    /// No ellipsizing.
    NoEllipsis,
    /// Collapse to a single line with the ellipsis at the start.
    Start,
    /// Collapse to a single line with the ellipsis in the middle.
    Middle,
    /// Keep up to the limited number of lines, with the ellipsis at the end
    /// of the last kept line.
    End(HeightLimit),
}

/// Horizontal alignment or justification.
#[derive(Debug, Eq, PartialEq, Clone, Copy, Structural)]
pub enum Align {
    Left,
    Right,
    Center,
    Justified,
    End,
}

impl Align {
    /// Human-readable name of the alignment.
    pub fn label(&self) -> (r: &'static str)
        ensures
            r@ == match self {
                Align::Left => "Left"@,
                Align::Right => "Right"@,
                Align::Center => "Center"@,
                Align::Justified => "Justified"@,
                Align::End => "End"@,
            },
    {
        match self {
            Align::Left => "Left",
            Align::Right => "Right",
            Align::Center => "Center",
            Align::Justified => "Justified",
            Align::End => "End",
        }
    }
}

/// A laid-out glyph: the positioned form of a [`ShapedGlyph`] within a line.
///
/// The hitbox origin `(x, y)` and width `w` are in logical subunits and are
/// used unscaled for hit-testing; the em-relative `x_offset`/`y_offset`
/// nudges are applied at render time only, so they never move later glyphs.
#[derive(Clone, Copy, Debug)]
pub struct LayoutGlyph {
    /// Start byte of the cluster in the source text line.
    pub start: usize,
    /// End byte of the cluster in the source text line.
    pub end: usize,
    /// Font size of the glyph, in subunits.
    pub font_size: i64,
    /// Line height override carried from the shaped glyph, in subunits.
    pub line_height_opt: Option<i64>,
    /// Numeric key of the face in the external font database; never zero.
    pub font_id: u32,
    /// Glyph index within the face.
    pub glyph_id: u16,
    /// X origin of the hitbox within the line, in subunits.
    pub x: i64,
    /// Y origin (baseline) of the hitbox within the line, in subunits.
    pub y: i64,
    /// Width of the hitbox, in subunits.
    pub w: i64,
    /// Bidirectional embedding level; even = left-to-right.
    pub level: u8,
    /// Render-time X nudge, in subunits per em.
    pub x_offset: i64,
    /// Render-time Y nudge, in subunits per em.
    pub y_offset: i64,
    /// Optional color override.
    pub color_opt: Option<Color>,
    /// Opaque metadata tag carried through from the text attributes.
    pub metadata: usize,
    /// Rendering hints that affect cache addressing.
    pub cache_key_flags: CacheKeyFlags,
}

/// Well-formedness of a laid-out glyph: the fields a renderer relies on are
/// bounded, so render-time arithmetic cannot overflow.
pub open spec fn wf_layout_glyph(g: LayoutGlyph) -> bool {
    &&& g.start < g.end
    &&& g.font_id != 0
    &&& 0 < g.font_size <= MAX_FONT_SIZE
    &&& (g.line_height_opt matches Some(h) ==> 0 <= h <= MAX_DIM)
    &&& -MAX_POS <= g.x <= MAX_POS
    &&& -MAX_POS <= g.y <= MAX_POS
    &&& 0 <= g.w <= MAX_DIM
    &&& g.level <= MAX_LEVEL
    &&& -MAX_EM_OFFSET <= g.x_offset <= MAX_EM_OFFSET
    &&& -MAX_EM_OFFSET <= g.y_offset <= MAX_EM_OFFSET
}

/// A laid-out line: its glyphs in visual order, plus line metrics.
#[derive(Clone, Debug)]
pub struct LayoutLine {
    /// Width of the line, in subunits.
    pub w: i64,
    /// Maximum ascent of the glyphs in the line, in subunits.
    pub max_ascent: i64,
    /// Maximum descent of the glyphs in the line, in subunits.
    pub max_descent: i64,
    /// Maximum line-height override of any contributing glyph, in subunits.
    pub line_height_opt: Option<i64>,
    /// Glyphs of the line, in visual order.
    pub glyphs: Vec<LayoutGlyph>,
}

/// A candidate line: a half-open index range into the paragraph's glyphs.
#[derive(Clone, Copy, Debug, PartialEq, Eq, Structural)]
pub struct LineSpan {
    /// Index of the first glyph of the line.
    pub start: usize,
    /// Index one past the last glyph of the line.
    pub end: usize,
}

} // verus!
