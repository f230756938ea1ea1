//! Line-layout core of a text shaping/rendering library.
//!
//! Given already-shaped glyph runs for a paragraph (glyph ids, advances,
//! clusters, bidirectional embedding levels), this crate produces the final
//! per-line, per-glyph layout: wrapped lines, bidi-correct visual ordering,
//! optional ellipsis truncation, horizontal alignment or justification, and a
//! translation of each glyph's logical offset into a physical,
//! cache-addressable position suitable for rasterization.
//!
//! All geometry is carried in fixed-point logical units: `SUBUNITS` units make
//! one pixel. Callers working in floating point convert at the boundary.

pub mod align;
pub mod bidi;
pub mod ellipsize;
pub mod layout;
pub mod model;
pub mod physical;
pub mod place;
pub mod width;
pub mod wrap;

pub use layout::LayoutParams;
pub use model::{
    Align, CacheKeyFlags, Color, Ellipsize, HeightLimit, LayoutGlyph, LayoutLine, LineSpan,
    ShapedGlyph, Wrap, SUBUNITS,
};
pub use physical::{CacheKey, PhysicalGlyph};
