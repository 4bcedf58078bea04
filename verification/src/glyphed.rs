//! Sections with their glyphs positioned, and the vertices that draw them.
use crate::float32::Float32;
use crate::geometry::{is_outside, Color, Rectangle};
use crate::glyph::{GlyphedSection, SectionGlyph, SectionView};
use crate::texture::{rect_for, TextureCoords};
use rusttype::gpu_cache::Cache;
use rusttype::PositionedGlyph;
use vstd::prelude::*;

verus! {

/// Data used to generate vertex information for a single glyph.
#[derive(Clone, Copy, Debug)]
pub struct GlyphVertex {
    pub tex_coords: Rectangle<Float32>,
    pub pixel_coords: Rectangle<i32>,
    pub bounds: Rectangle<Float32>,
    pub color: Color,
    pub z: Float32,
}

/// Where a texture shows each glyph that it holds, by font number and glyph.
pub type TextureRects<'font> = Map<(usize, PositionedGlyph<'font>), TextureCoords>;

/// Container for positioned glyphs which can generate and cache vertices.
pub struct Glyphed<'font, V> {
    pub positioned: GlyphedSection<'font>,
    pub vertices: Vec<V>,
    /// What the vertices were made from.
    pub drawn: Ghost<Seq<GlyphVertex>>,
}

/// What a [`Glyphed`] is.
#[verifier::ext_equal]
pub struct GlyphedView<'font, V> {
    pub positioned: SectionView<'font>,
    pub vertices: Seq<V>,
    /// What the vertices were made from.
    pub drawn: Seq<GlyphVertex>,
}

impl<'font, V> View for Glyphed<'font, V> {
    type V = GlyphedView<'font, V>;

    open spec fn view(&self) -> GlyphedView<'font, V> {
        GlyphedView {
            positioned: self.positioned@,
            vertices: self.vertices@,
            drawn: self.drawn@,
        }
    }
}

/// What a vertex is made from for a glyph: nothing if the glyph has no box, is not in the
/// texture, or lies totally outside of the bounds.
pub open spec fn vertex_for<'font>(
    glyph: SectionGlyph<'font>,
    bounds: Rectangle<Float32>,
    z: Float32,
    rects: TextureRects<'font>,
) -> Option<GlyphVertex> {
    if crate::texture::glyph_missed(rects, glyph.font_id.0, glyph.glyph) {
        None
    } else {
        match crate::texture::glyph_shown(rects, glyph.font_id.0, glyph.glyph) {
            None => None,
            Some((tex_coords, pixel_coords)) => if crate::geometry::outside_bounds(
                pixel_coords,
                bounds,
            ) {
                None
            } else {
                Some(GlyphVertex { tex_coords, pixel_coords, bounds, color: glyph.color, z })
            },
        }
    }
}

/// What vertices are made from for the glyphs of a section, in order.
pub open spec fn vertices_for<'font>(
    section: SectionView<'font>,
    rects: TextureRects<'font>,
) -> Seq<GlyphVertex>
    decreases section.glyphs.len(),
{
    if section.glyphs.len() == 0 {
        Seq::empty()
    } else {
        let rest = SectionView { glyphs: section.glyphs.drop_last(), ..section };
        match vertex_for(section.glyphs.last(), section.bounds, section.z, rects) {
            Some(vertex) => vertices_for(rest, rects).push(vertex),
            None => vertices_for(rest, rects),
        }
    }
}

/// Whether `vertices` are what `to_vertex` made from `drawn`, one from each.
pub open spec fn made_by<V, F: Fn(GlyphVertex) -> V>(
    to_vertex: F,
    drawn: Seq<GlyphVertex>,
    vertices: Seq<V>,
) -> bool {
    &&& vertices.len() == drawn.len()
    &&& forall|i: int|
        0 <= i < drawn.len() ==> call_ensures(to_vertex, (drawn[i],), #[trigger] vertices[i])
}

impl<'font, V> GlyphedView<'font, V> {
    /// A section without vertices.
    pub open spec fn fresh(positioned: SectionView<'font>) -> GlyphedView<'font, V> {
        GlyphedView { positioned, vertices: Seq::empty(), drawn: Seq::empty() }
    }

    /// Whether this section is `before` with its vertices made, unless they were there.
    pub open spec fn ensured_from<F: Fn(GlyphVertex) -> V>(
        self,
        before: GlyphedView<'font, V>,
        rects: TextureRects<'font>,
        to_vertex: F,
    ) -> bool {
        if before.vertices.len() > 0 {
            self == before
        } else {
            &&& self.positioned == before.positioned
            &&& self.drawn == vertices_for(before.positioned, rects)
            &&& made_by(to_vertex, self.drawn, self.vertices)
        }
    }
}

impl<'font, V> PartialEq for Glyphed<'font, V> {
    fn eq(&self, other: &Self) -> (r: bool) {
        self.positioned.same(&other.positioned)
    }
}

impl<'font, V> vstd::std_specs::cmp::PartialEqSpecImpl for Glyphed<'font, V> {
    open spec fn obeys_eq_spec() -> bool {
        true
    }

    open spec fn eq_spec(&self, other: &Self) -> bool {
        crate::glyph::sections_equal(self.positioned@, other.positioned@)
    }
}

/// What a vertex is made from for one glyph of a section.
fn glyph_vertex<'font>(
    glyph: &SectionGlyph<'font>,
    bounds: &Rectangle<Float32>,
    z: Float32,
    texture_cache: &Cache<'font>,
) -> (r: Option<GlyphVertex>)
    requires
        crate::texture::texture_attributes(*texture_cache).pad_glyphs,
        crate::texture::glyph_in_reach(glyph.glyph),
    ensures
        r == vertex_for(*glyph, *bounds, z, crate::texture::texture_rects(*texture_cache)),
{
    match rect_for(texture_cache, glyph.font_id.0, &glyph.glyph) {
        Err(_) => None,
        Ok(None) => None,
        Ok(Some((tex_coords, pixel_coords))) => {
            if is_outside(&pixel_coords, bounds) {
                // glyph is totally outside the bounds
                None
            } else {
                Some(
                    GlyphVertex { tex_coords, pixel_coords, bounds: *bounds, color: glyph.color, z },
                )
            }
        },
    }
}

impl<'font, V> Glyphed<'font, V> {
    /// A section whose vertices are still to be made.
    pub fn new(gs: GlyphedSection<'font>) -> (r: Self)
        ensures
            r.positioned == gs,
            r@ == GlyphedView::<V>::fresh(gs@),
    {
        Glyphed { positioned: gs, vertices: Vec::new(), drawn: Ghost(Seq::empty()) }
    }

    /// Mark previous texture positions as no longer valid (vertices require re-generation).
    pub fn invalidate_texture_positions(&mut self)
        ensures
            final(self).positioned == old(self).positioned,
            final(self)@ == GlyphedView::<V>::fresh(old(self)@.positioned),
    {
        self.vertices.clear();
        self.drawn = Ghost(Seq::empty());
    }

    /// Calculate vertices if not already done.
    pub fn ensure_vertices<F: Fn(GlyphVertex) -> V>(
        &mut self,
        texture_cache: &Cache<'font>,
        to_vertex: &F,
    )
        requires
            old(self)@.vertices.len() == 0 ==> crate::glyph::section_in_reach(
                old(self)@.positioned,
            ),
            crate::texture::texture_attributes(*texture_cache).pad_glyphs,
            forall|vertex: GlyphVertex| call_requires(*to_vertex, (vertex,)),
        ensures
            final(self).positioned == old(self).positioned,
            final(self)@.ensured_from(
                old(self)@,
                crate::texture::texture_rects(*texture_cache),
                *to_vertex,
            ),
    {
        if self.vertices.len() > 0 {
            return;
        }
        let ghost rects = crate::texture::texture_rects(*texture_cache);
        let ghost whole = self.positioned@;
        let ghost mut drawn: Seq<GlyphVertex> = Seq::empty();
        let mut vertices: Vec<V> = Vec::new();
        let mut i: usize = 0;
        while i < self.positioned.glyphs.len()
            invariant
                i <= self.positioned.glyphs@.len(),
                whole == self.positioned@,
                *self == *old(self),
                crate::texture::texture_attributes(*texture_cache).pad_glyphs,
                crate::glyph::section_in_reach(whole),
                rects == crate::texture::texture_rects(*texture_cache),
                drawn == vertices_for(
                    SectionView { glyphs: whole.glyphs.take(i as int), ..whole },
                    rects,
                ),
                made_by(*to_vertex, drawn, vertices@),
                forall|vertex: GlyphVertex| call_requires(*to_vertex, (vertex,)),
            decreases self.positioned.glyphs@.len() - i,
        {
            assert(crate::texture::glyph_in_reach(whole.glyphs[i as int].glyph));
            let found = glyph_vertex(
                &self.positioned.glyphs[i],
                &self.positioned.bounds,
                self.positioned.z,
                texture_cache,
            );
            proof {
                assert(whole.glyphs.take(i + 1).drop_last() =~= whole.glyphs.take(i as int));
            }
            if let Some(vertex) = found {
                vertices.push(to_vertex(vertex));
                proof {
                    drawn = drawn.push(vertex);
                }
            }
            i = i + 1;
        }
        assert(whole.glyphs.take(i as int) =~= whole.glyphs);
        self.vertices = vertices;
        self.drawn = Ghost(drawn);
    }
}

} // verus!
