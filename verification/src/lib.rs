//! A brush for text: it positions the glyphs of sections, keeps them from frame to frame, packs
//! their drawings into one texture, and hands out the vertices that draw them.
pub mod brush;
pub mod builder;
pub mod coherence;
pub mod draw_laws;
pub mod float32;
pub mod font;
pub mod font_laws;
pub mod geometry;
pub mod glyph;
pub mod glyphed;
pub mod hash_laws;
pub mod hashing;
pub mod laws;
pub mod layout_laws;
pub mod number_laws;
pub mod room_laws;
pub mod section;
pub mod state;
pub mod store;
pub mod texture;

pub use brush::{BrushAction, BrushError, GlyphBrush};
pub use builder::GlyphBrushBuilder;
pub use float32::Float32;
pub use geometry::{Color, Point, Rectangle};
pub use glyph::{FontId, GlyphedSection, SectionGlyph};
pub use glyphed::GlyphVertex;
pub use hashing::{DefaultSectionHasher, SectionHasher};
pub use section::{GlyphChange, GlyphPositioner, SectionGeometry, SectionText, VariedSection};
