//! Sections of text to be laid out, and the layouts that do it.
use crate::float32::Float32;
use crate::geometry::{Color, Point, Rectangle};
use crate::glyph::{FontId, SectionGlyph};
use rusttype::Font;
use std::borrow::Cow;
use vstd::prelude::*;

verus! {

#[verifier::external_type_specification]
#[verifier::external_body]
pub struct ExFont<'a>(rusttype::Font<'a>);

/// `Font::clone`, which is derived: a clone of a font is the same font.
pub assume_specification<'a>[ <Font<'a> as Clone>::clone ](font: &Font<'a>) -> (r: Font<'a>)
    ensures
        r == *font,
;

/// A run of text in one font, scale and colour.
pub struct SectionText<'a> {
    pub text: &'a str,
    /// Pixel scale of the text, horizontal and vertical.
    pub scale: Point<Float32>,
    pub color: Color,
    pub font_id: FontId,
}

/// Where a section is laid out, and how much room it has there.
#[derive(Clone, Copy, Debug)]
pub struct SectionGeometry {
    pub screen_position: Point<Float32>,
    /// Width and height.
    pub bounds: Point<Float32>,
}

/// Text that can differ in font, scale and colour from run to run, with the layout `L` that
/// positions it.
pub struct VariedSection<'a, L> {
    pub screen_position: Point<Float32>,
    /// Width and height that the text may take.
    pub bounds: Point<Float32>,
    /// Depth, for drawing.
    pub z: Float32,
    pub layout: L,
    pub text: Vec<SectionText<'a>>,
}

/// Numeric equality of two geometries.
pub open spec fn geometries_equal(a: SectionGeometry, b: SectionGeometry) -> bool {
    &&& crate::geometry::points_equal(a.screen_position, b.screen_position)
    &&& crate::geometry::points_equal(a.bounds, b.bounds)
}

impl SectionGeometry {
    /// Compares two geometries as numbers.
    pub fn same(&self, other: &SectionGeometry) -> (r: bool)
        ensures
            r == geometries_equal(*self, *other),
    {
        crate::geometry::same_point(&self.screen_position, &other.screen_position)
            && crate::geometry::same_point(&self.bounds, &other.bounds)
    }
}

impl<'a, L> VariedSection<'a, L> {
    pub open spec fn geometry_spec(&self) -> SectionGeometry {
        SectionGeometry { screen_position: self.screen_position, bounds: self.bounds }
    }

    /// Whether every run names one of the first `count` fonts.
    pub open spec fn fonts_known(&self, count: nat) -> bool {
        forall|i: int| 0 <= i < self.text@.len() ==> (#[trigger] self.text@[i]).font_id.0 < count
    }

    /// Where the section is laid out.
    pub fn geometry(&self) -> (r: SectionGeometry)
        ensures
            r == self.geometry_spec(),
    {
        SectionGeometry { screen_position: self.screen_position, bounds: self.bounds }
    }
}

/// How a section differs from one whose glyphs are known.
#[derive(Clone, Copy, Debug)]
pub enum GlyphChange {
    /// It is laid out elsewhere; what is held is the geometry of the earlier one.
    Geometry(SectionGeometry),
    /// Its colours differ, but no alpha.
    Color,
    /// Its alpha differs.
    Alpha,
}

/// Whether every glyph in a list can be drawn.
pub open spec fn glyphs_drawable(glyphs: Seq<SectionGlyph<'_>>) -> bool {
    forall|i: int|
        0 <= i < glyphs.len() ==> crate::texture::glyph_drawable((#[trigger] glyphs[i]).glyph)
}

/// A way to position the glyphs of a section.
///
/// An implementation gives only glyphs that can be drawn: whose fonts have outlines for them that
/// can be read and rasterized. It gives the same key each time: one that says nothing of
/// [`key`](GlyphPositioner::key) is held to some function of the layout, whichever that is.
pub trait GlyphPositioner: Sized {
    /// The bytes that stand for this layout where a section is hashed. What they are is open
    /// unless the layout says it.
    open spec fn key(&self) -> Seq<u8> {
        vstd::pervasive::arbitrary::<spec_fn(Self) -> Seq<u8>>()(*self)
    }

    /// Gives the bytes that stand for this layout where a section is hashed: the same bytes
    /// from layouts that position alike.
    fn hash_key(&self) -> (r: Vec<u8>)
        ensures
            r@ == self.key(),
    ;

    /// Positions the glyphs of `text`.
    fn calculate_glyphs<'font>(
        &self,
        fonts: &Vec<Font<'font>>,
        geometry: &SectionGeometry,
        text: &Vec<SectionText<'_>>,
    ) -> (r: Vec<SectionGlyph<'font>>)
        ensures
            glyphs_drawable(r@),
    ;

    /// The rectangle that glyphs laid out with this geometry are drawn within.
    fn bounds_rect(&self, geometry: &SectionGeometry) -> (r: Rectangle<Float32>);

    /// Positions the glyphs of `text` from those of a section that differs by `change`.
    fn recalculate_glyphs<'font>(
        &self,
        previous: Cow<'_, Vec<SectionGlyph<'font>>>,
        change: GlyphChange,
        fonts: &Vec<Font<'font>>,
        geometry: &SectionGeometry,
        text: &Vec<SectionText<'_>>,
    ) -> (r: Vec<SectionGlyph<'font>>)
        requires
            glyphs_drawable(previous@),
        ensures
            glyphs_drawable(r@),
    ;
}

} // verus!
