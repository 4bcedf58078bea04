//! What a brush holds between calls, and how each call changes it.
use crate::brush::{BrushAction, BrushError};
use crate::geometry::Rectangle;
use crate::glyph::{SectionGlyph, SectionView};
use crate::glyphed::{GlyphVertex, GlyphedView, TextureRects};
use crate::hashing::{SectionHash, SectionHashDetail, SectionHasher};
use crate::section::{
    GlyphChange, GlyphPositioner, SectionGeometry, SectionText, VariedSection,
};
use rusttype::gpu_cache::Cache;
use rusttype::{Font, PositionedGlyph};
use std::borrow::Cow;
use vstd::prelude::*;

verus! {

/// What a brush holds.
#[verifier::ext_equal]
#[verifier::reject_recursive_types(V)]
pub struct BrushState<'font, V, H> {
    pub fonts: Vec<Font<'font>>,
    pub texture: Cache<'font>,
    /// The hash of the sections that were drawn last.
    pub last_draw: u64,
    /// Sections whose glyphs are positioned.
    pub sections: Map<SectionHash, GlyphedView<'font, V>>,
    /// The hashes of the sections of the last frame, and of this one so far, in the order in
    /// which they were met.
    pub last_details: Seq<SectionHashDetail>,
    pub details: Seq<SectionHashDetail>,
    /// Sections to be drawn.
    pub buffer: Seq<SectionHash>,
    /// Sections that are used in this frame.
    pub keep: Set<SectionHash>,
    pub cache_positioning: bool,
    pub cache_drawing: bool,
    pub hasher: H,
    /// Sections that came positioned, in the last frame and in this one.
    pub last_pre: Seq<SectionView<'font>>,
    pub pre: Seq<SectionView<'font>>,
}

/// The glyphs that wait after those of a section are queued too.
pub open spec fn queue_glyphs<'font>(
    queue: Seq<(usize, PositionedGlyph<'font>)>,
    glyphs: Seq<SectionGlyph<'font>>,
) -> Seq<(usize, PositionedGlyph<'font>)>
    decreases glyphs.len(),
{
    if glyphs.len() == 0 {
        queue
    } else {
        crate::texture::queued_after(
            queue_glyphs(queue, glyphs.drop_last()),
            glyphs.last().font_id.0,
            glyphs.last().glyph,
        )
    }
}

/// The glyphs that wait after those of the listed sections are queued, as far as the sections
/// are known.
pub open spec fn queue_listed<'font, V>(
    queue: Seq<(usize, PositionedGlyph<'font>)>,
    sections: Map<SectionHash, GlyphedView<'font, V>>,
    hashes: Seq<SectionHash>,
) -> Seq<(usize, PositionedGlyph<'font>)>
    decreases hashes.len(),
{
    if hashes.len() == 0 {
        queue
    } else {
        let before = queue_listed(queue, sections, hashes.drop_last());
        if sections.contains_key(hashes.last()) {
            queue_glyphs(before, sections[hashes.last()].positioned.glyphs)
        } else {
            before
        }
    }
}

/// The glyphs that wait after those of sections that came positioned are queued.
pub open spec fn queue_positioned<'font>(
    queue: Seq<(usize, PositionedGlyph<'font>)>,
    pre: Seq<SectionView<'font>>,
) -> Seq<(usize, PositionedGlyph<'font>)>
    decreases pre.len(),
{
    if pre.len() == 0 {
        queue
    } else {
        queue_glyphs(queue_positioned(queue, pre.drop_last()), pre.last().glyphs)
    }
}

/// Whether a texture holds every glyph of a section that has a box.
pub open spec fn section_held<'font>(
    section: SectionView<'font>,
    rects: TextureRects<'font>,
) -> bool {
    forall|i: int|
        0 <= i < section.glyphs.len() ==> !crate::texture::glyph_missed(
            rects,
            (#[trigger] section.glyphs[i]).font_id.0,
            section.glyphs[i].glyph,
        )
}

/// The vertices of the listed sections, one after the other.
pub open spec fn listed_vertices<'font, V>(
    sections: Map<SectionHash, GlyphedView<'font, V>>,
    hashes: Seq<SectionHash>,
) -> Seq<V>
    decreases hashes.len(),
{
    if hashes.len() == 0 {
        Seq::empty()
    } else {
        listed_vertices(sections, hashes.drop_last()) + sections[hashes.last()].vertices
    }
}

/// What vertices are made from for sections that came positioned, one after the other.
pub open spec fn positioned_vertices<'font>(
    pre: Seq<SectionView<'font>>,
    rects: TextureRects<'font>,
) -> Seq<GlyphVertex>
    decreases pre.len(),
{
    if pre.len() == 0 {
        Seq::empty()
    } else {
        positioned_vertices(pre.drop_last(), rects) + crate::glyphed::vertices_for(
            pre.last(),
            rects,
        )
    }
}

/// Whether two lists of sections are drawn the same.
pub open spec fn all_sections_equal<'font>(
    a: Seq<SectionView<'font>>,
    b: Seq<SectionView<'font>>,
) -> bool {
    &&& a.len() == b.len()
    &&& forall|i: int|
        0 <= i < a.len() ==> crate::glyph::sections_equal(#[trigger] a[i], b[i])
}

/// Whether `after` are the sections of `before` with the vertices of the listed ones made,
/// where they were not there.
pub open spec fn vertices_ensured<'font, V, F: Fn(GlyphVertex) -> V>(
    before: Map<SectionHash, GlyphedView<'font, V>>,
    after: Map<SectionHash, GlyphedView<'font, V>>,
    hashes: Seq<SectionHash>,
    rects: TextureRects<'font>,
    to_vertex: F,
) -> bool {
    &&& after.dom() == before.dom()
    &&& forall|h: SectionHash| #[trigger]
        after.contains_key(h) ==> if hashes.contains(h) {
            after[h].ensured_from(before[h], rects, to_vertex)
        } else {
            after[h] == before[h]
        }
}

/// Whether `vertices` draw the listed sections and then those that came positioned: clones of
/// the vertices of the former, and what `to_vertex` makes for the latter.
pub open spec fn draws<'font, V: Clone, F: Fn(GlyphVertex) -> V>(
    vertices: Seq<V>,
    sections: Map<SectionHash, GlyphedView<'font, V>>,
    hashes: Seq<SectionHash>,
    pre: Seq<SectionView<'font>>,
    rects: TextureRects<'font>,
    to_vertex: F,
) -> bool {
    let own = listed_vertices(sections, hashes);
    &&& own.len() <= vertices.len()
    &&& forall|i: int| 0 <= i < own.len() ==> cloned(own[i], #[trigger] vertices[i])
    &&& crate::glyphed::made_by(
        to_vertex,
        positioned_vertices(pre, rects),
        vertices.skip(own.len() as int),
    )
}

/// Whether `glyphs` is what the layout can give for the text when it changes glyphs that are
/// known.
pub open spec fn recalculated<'font, G: GlyphPositioner>(
    layout: G,
    known: Seq<SectionGlyph<'font>>,
    change: GlyphChange,
    fonts: Vec<Font<'font>>,
    geometry: SectionGeometry,
    text: Vec<SectionText<'_>>,
    glyphs: Vec<SectionGlyph<'font>>,
) -> bool {
    exists|previous: Cow<'_, Vec<SectionGlyph<'font>>>|
        previous@ == known && #[trigger] call_ensures(
            G::recalculate_glyphs,
            (&layout, previous, change, &fonts, &geometry, &text),
            glyphs,
        )
}

/// Whether `glyphs` is what the layout can give for the text from nothing.
pub open spec fn calculated<'font, G: GlyphPositioner>(
    layout: G,
    fonts: Vec<Font<'font>>,
    geometry: SectionGeometry,
    text: Vec<SectionText<'_>>,
    glyphs: Vec<SectionGlyph<'font>>,
) -> bool {
    call_ensures(G::calculate_glyphs, (&layout, &fonts, &geometry, &text), glyphs)
}

/// The side of texture that is suggested where one is too small: twice as long, at least a pixel,
/// and no longer than can be measured.
pub open spec fn larger_side(side: u32) -> int {
    if side == 0 {
        1
    } else {
        vstd::math::min(side * 2, u32::MAX as int)
    }
}

impl<'font, V> GlyphedView<'font, V> {
    /// Whether vertices, where there are any, show all glyphs as the texture holds them.
    pub open spec fn shows(self, rects: TextureRects<'font>) -> bool {
        self.vertices.len() > 0 ==> {
            &&& section_held(self.positioned, rects)
            &&& self.drawn == crate::glyphed::vertices_for(self.positioned, rects)
            &&& self.vertices.len() == self.drawn.len()
        }
    }
}

impl<'font, V, H> BrushState<'font, V, H> {
    /// Every section that is to be drawn is positioned, and used in this frame.
    pub open spec fn valid(self) -> bool {
        forall|i: int|
            0 <= i < self.buffer.len() ==> self.keep.contains(#[trigger] self.buffer[i])
                && self.sections.contains_key(self.buffer[i])
    }

    /// Whether nothing has been drawn, positioned or queued yet.
    pub open spec fn unused(self) -> bool {
        &&& crate::texture::texture_queue(self.texture).len() == 0
        &&& self.rects().dom().is_empty()
        &&& self.last_draw == 0
        &&& self.sections == Map::<SectionHash, GlyphedView<'font, V>>::empty()
        &&& self.last_details.len() == 0
        &&& self.details.len() == 0
        &&& self.buffer.len() == 0
        &&& self.keep == Set::<SectionHash>::empty()
        &&& self.last_pre.len() == 0
        &&& self.pre.len() == 0
    }

    /// The width and the height of the texture.
    pub open spec fn texture_size(self) -> (u32, u32) {
        (
            crate::texture::texture_attributes(self.texture).width,
            crate::texture::texture_attributes(self.texture).height,
        )
    }

    /// The size of texture that is suggested where one is too small.
    pub open spec fn larger_size(self) -> (int, int) {
        (larger_side(self.texture_size().0), larger_side(self.texture_size().1))
    }

    /// Where the texture shows each glyph.
    pub open spec fn rects(self) -> TextureRects<'font> {
        crate::texture::texture_rects(self.texture)
    }

    /// The vertices of every section show its glyphs as the texture holds them.
    pub open spec fn coherent(self) -> bool {
        forall|h: SectionHash| #[trigger]
            self.sections.contains_key(h) ==> self.sections[h].shows(self.rects())
    }

    /// The hashes of the section that was met in the last frame as the next one is in this.
    pub open spec fn counterpart(self) -> Option<SectionHashDetail> {
        if self.details.len() < self.last_details.len() {
            Some(self.last_details[self.details.len() as int])
        } else {
            None
        }
    }

    /// The positioned section whose glyphs can be changed into those of a section, and the
    /// change.
    pub open spec fn reusable(self, detail: SectionHashDetail) -> Option<
        (SectionHash, GlyphChange),
    > {
        match self.counterpart() {
            Some(other) => match detail.change_from(other) {
                Some(change) => if self.cache_positioning && self.sections.contains_key(
                    other.full,
                ) {
                    Some((other.full, change))
                } else {
                    None
                },
                None => None,
            },
            None => None,
        }
    }

    /// The sections that stay when a new one is positioned: one whose glyphs are changed into
    /// those of the new section goes, unless it is used in this frame.
    pub open spec fn sections_left(self, detail: SectionHashDetail) -> Map<
        SectionHash,
        GlyphedView<'font, V>,
    > {
        match self.reusable(detail) {
            Some((h, _)) => if self.keep.contains(h) {
                self.sections
            } else {
                self.sections.remove(h)
            },
            None => self.sections,
        }
    }

    /// Whether `positioned` is what the layout gave for the section: by changing glyphs that
    /// are known where that is possible, else from nothing.
    pub open spec fn laid_out<L, G: GlyphPositioner>(
        self,
        detail: SectionHashDetail,
        section: VariedSection<'_, L>,
        layout: G,
        positioned: SectionView<'font>,
    ) -> bool {
        let geometry = section.geometry_spec();
        &&& positioned.z == section.z
        &&& call_ensures(G::bounds_rect, (&layout, &geometry), positioned.bounds)
        &&& match self.reusable(detail) {
            Some((h, change)) => exists|glyphs: Vec<SectionGlyph<'font>>|
                glyphs@ == positioned.glyphs && #[trigger] recalculated(
                    layout,
                    self.sections[h].positioned.glyphs,
                    change,
                    self.fonts,
                    geometry,
                    section.text,
                    glyphs,
                ),
            None => exists|glyphs: Vec<SectionGlyph<'font>>|
                glyphs@ == positioned.glyphs && #[trigger] calculated(
                    layout,
                    self.fonts,
                    geometry,
                    section.text,
                    glyphs,
                ),
        }
    }

    /// The sections with the vertices that can still be used: none if the texture was
    /// reordered.
    pub open spec fn sections_usable(self, reordered: bool) -> Map<
        SectionHash,
        GlyphedView<'font, V>,
    > {
        if reordered {
            crate::store::invalidated(self.sections)
        } else {
            self.sections
        }
    }

    /// Whether `r` are the pixels that the glyphs of a section cover within its bounds; none of
    /// a section that is not positioned.
    pub open spec fn covered_by(self, hash: SectionHash, r: Option<Rectangle<i32>>) -> bool {
        if self.sections.contains_key(hash) {
            let section = self.sections[hash].positioned;
            crate::glyph::covers(
                r,
                crate::glyph::glyph_boxes(section.glyphs),
                crate::geometry::pixels_around(section.bounds),
            )
        } else {
            r is None
        }
    }

    /// Whether `r` are the glyphs of a section that is positioned.
    pub open spec fn glyphs_are(self, hash: SectionHash, r: Seq<&PositionedGlyph<'font>>) -> bool {
        let glyphs = self.sections[hash].positioned.glyphs;
        &&& r.len() == glyphs.len()
        &&& forall|i: int| 0 <= i < r.len() ==> *(#[trigger] r[i]) == glyphs[i].glyph
    }

    /// Whether a section stays as it is positioned already.
    pub open spec fn known(self, hash: SectionHash) -> bool {
        self.cache_positioning && self.sections.contains_key(hash)
    }

    /// The state once the frame is over: what was not used in it is forgotten, and a new frame
    /// starts.
    pub open spec fn after_frame(self) -> BrushState<'font, V, H> {
        BrushState {
            sections: if self.cache_positioning {
                self.sections.restrict(self.keep)
            } else {
                Map::empty()
            },
            keep: Set::empty(),
            buffer: Seq::empty(),
            last_details: self.details,
            details: Seq::empty(),
            last_pre: self.pre,
            pre: Seq::empty(),
            ..self
        }
    }

    /// No section has more vertices than glyphs.
    pub open spec fn vertices_bounded(self) -> bool {
        forall|h: SectionHash| #[trigger]
            self.sections.contains_key(h) ==> self.sections[h].vertices.len()
                <= self.sections[h].positioned.glyphs.len()
    }

    /// Whether all glyphs that are positioned or wait have outlines that can be drawn, and those
    /// that wait have pixels that can be counted.
    pub open spec fn drawable(self) -> bool {
        &&& crate::texture::queue_drawable(crate::texture::texture_queue(self.texture))
        &&& forall|h: SectionHash| #[trigger]
            self.sections.contains_key(h) ==> crate::section::glyphs_drawable(
                self.sections[h].positioned.glyphs,
            )
        &&& forall|i: int|
            0 <= i < self.pre.len() ==> crate::section::glyphs_drawable(
                (#[trigger] self.pre[i]).glyphs,
            )
    }

    /// Whether the pixels of all glyphs that are used in this frame can be counted.
    pub open spec fn frame_in_reach(self) -> bool {
        &&& forall|h: SectionHash|
            self.keep.contains(h) && #[trigger] self.sections.contains_key(h)
                ==> crate::glyph::section_in_reach(self.sections[h].positioned)
        &&& forall|i: int|
            0 <= i < self.pre.len() ==> crate::glyph::section_in_reach(#[trigger] self.pre[i])
    }

    /// Whether any glyph is used in this frame.
    pub open spec fn any_text(self) -> bool {
        ||| exists|h: SectionHash|
            self.keep.contains(h) && #[trigger] self.sections.contains_key(h)
                && self.sections[h].positioned.glyphs.len() > 0
        ||| exists|i: int|
            0 <= i < self.pre.len() && (#[trigger] self.pre[i]).glyphs.len() > 0
    }

    /// Whether a texture holds every glyph with a box that is used in this frame.
    pub open spec fn text_held(self, rects: TextureRects<'font>) -> bool {
        &&& forall|h: SectionHash|
            self.keep.contains(h) && #[trigger] self.sections.contains_key(h) ==> section_held(
                self.sections[h].positioned,
                rects,
            )
        &&& forall|i: int|
            0 <= i < self.pre.len() ==> section_held(#[trigger] self.pre[i], rects)
    }

    /// Whether the texture holds every glyph used in this frame already, and every glyph that
    /// waits from an earlier one.
    pub open spec fn nothing_lacking(self) -> bool {
        self.text_held(self.rects()) && !crate::texture::queue_lacking(self.texture)
    }

    /// The glyphs that wait after all those used in this frame are queued, with the sections in
    /// the given order.
    pub open spec fn frame_queue(self, order: Seq<SectionHash>) -> Seq<
        (usize, PositionedGlyph<'font>),
    > {
        queue_positioned(
            queue_listed(crate::texture::texture_queue(self.texture), self.sections, order),
            self.pre,
        )
    }

    /// Whether all glyphs that wait once the frame is queued fit into the texture, if it held
    /// nothing else.
    pub open spec fn frame_fits(self) -> bool {
        forall|order: Seq<SectionHash>| #[trigger]
            self.orders_kept(order) ==> crate::texture::queue_fits(
                self.frame_queue(order),
                crate::texture::texture_attributes(self.texture),
            )
    }

    /// Whether the texture lacks glyphs that wait once the frame is queued, and those that it
    /// lacks are all too large for it.
    pub open spec fn frame_too_large(self) -> bool {
        &&& self.any_text()
        &&& forall|order: Seq<SectionHash>| #[trigger]
            self.orders_kept(order) ==> crate::texture::queue_too_large(
                self.frame_queue(order),
                self.rects(),
                crate::texture::texture_attributes(self.texture),
            )
    }

    /// Whether an order names the sections used in this frame, each once.
    pub open spec fn orders_kept(self, order: Seq<SectionHash>) -> bool {
        order.no_duplicates() && order.to_set() == self.keep
    }

    /// Whether `after` is this state once all glyphs used in this frame are in the texture.
    /// Where they found room without reordering, vertices that were right are right still.
    pub open spec fn text_cached(
        self,
        after: BrushState<'font, V, H>,
        reordered: bool,
    ) -> bool {
        &&& after == (BrushState { texture: after.texture, ..self })
        &&& crate::texture::texture_attributes(after.texture)
            == crate::texture::texture_attributes(self.texture)
        &&& self.text_held(after.rects())
        &&& if self.any_text() {
            crate::texture::texture_queue(after.texture).len() == 0
        } else {
            &&& !reordered
            &&& after.rects() == self.rects()
            &&& crate::texture::texture_queue(after.texture) == crate::texture::texture_queue(
                self.texture,
            )
        }
        &&& self.coherent() && !reordered ==> forall|h: SectionHash|
            self.keep.contains(h) && #[trigger] self.sections.contains_key(h)
                ==> self.sections[h].shows(after.rects())
    }

    /// Whether `after` is this state once the glyphs used in this frame did not fit into the
    /// texture: they wait, and nothing but the texture has changed.
    pub open spec fn text_refused(self, after: BrushState<'font, V, H>) -> bool {
        &&& self.any_text()
        &&& after == (BrushState { texture: after.texture, ..self })
        &&& crate::texture::texture_attributes(after.texture)
            == crate::texture::texture_attributes(self.texture)
        &&& exists|order: Seq<SectionHash>| #[trigger]
            self.orders_kept(order) && crate::texture::texture_queue(after.texture)
                == self.frame_queue(order)
    }
}

impl<'font, V, H: SectionHasher> BrushState<'font, V, H> {
    /// Whether `after` is this state once the glyphs of a section are positioned.
    pub open spec fn glyphs_cached<L, G: GlyphPositioner>(
        self,
        after: BrushState<'font, V, H>,
        section: VariedSection<'_, L>,
        layout: G,
    ) -> bool {
        let detail = SectionHashDetail::of(self.hasher, section, layout);
        &&& after == (BrushState {
            details: self.details.push(detail),
            sections: after.sections,
            ..self
        })
        &&& if self.known(detail.full) {
            after.sections == self.sections
        } else {
            exists|positioned: SectionView<'font>|
                {
                    &&& #[trigger] self.laid_out(detail, section, layout, positioned)
                    &&& after.sections == self.sections_left(detail).insert(
                        detail.full,
                        GlyphedView::<V>::fresh(positioned),
                    )
                }
        }
    }

    /// Whether `after` is this state once a section is used in this frame.
    pub open spec fn section_used<L, G: GlyphPositioner>(
        self,
        after: BrushState<'font, V, H>,
        section: VariedSection<'_, L>,
        layout: G,
    ) -> bool {
        let hash = SectionHashDetail::of(self.hasher, section, layout).full;
        &&& self.glyphs_cached(BrushState { keep: self.keep, ..after }, section, layout)
        &&& after.keep == self.keep.insert(hash)
        &&& after.sections.contains_key(hash)
    }

    /// Whether `after` is this state once a section is queued.
    pub open spec fn section_queued<L, G: GlyphPositioner>(
        self,
        after: BrushState<'font, V, H>,
        section: VariedSection<'_, L>,
        layout: G,
    ) -> bool {
        let hash = SectionHashDetail::of(self.hasher, section, layout).full;
        &&& self.section_used(BrushState { buffer: self.buffer, ..after }, section, layout)
        &&& after.buffer == self.buffer.push(hash)
    }

    /// Whether `after` is this state once a section is queued with the layout that it has: its
    /// glyphs are positioned, it is used in this frame, and it is the last to be drawn.
    pub open spec fn own_queued<L: GlyphPositioner>(
        self,
        after: BrushState<'font, V, H>,
        section: VariedSection<'_, L>,
    ) -> bool {
        let hash = SectionHashDetail::of(self.hasher, section, section.layout).full;
        &&& self.glyphs_cached(
            BrushState { keep: self.keep, buffer: self.buffer, ..after },
            section,
            section.layout,
        )
        &&& after.sections.contains_key(hash)
        &&& after.keep == self.keep.insert(hash)
        &&& after.buffer == self.buffer.push(hash)
    }

    /// The state once a section that came positioned is queued.
    pub open spec fn positioned_queued(self, section: SectionView<'font>) -> BrushState<
        'font,
        V,
        H,
    > {
        BrushState { pre: self.pre.push(section), ..self }
    }

    /// Whether `after` is this state once its texture has another size: nothing is drawn there
    /// yet, and what waits still does.
    pub open spec fn texture_resized(
        self,
        after: BrushState<'font, V, H>,
        width: u32,
        height: u32,
    ) -> bool {
        &&& after == (BrushState {
            texture: after.texture,
            last_draw: 0,
            sections: crate::store::invalidated(self.sections),
            ..self
        })
        &&& crate::texture::texture_attributes(self.texture).with_size(width, height).built_as(
            crate::texture::texture_attributes(after.texture),
        )
        &&& crate::texture::texture_queue(after.texture) == crate::texture::texture_queue(
            self.texture,
        )
        &&& after.rects().dom().is_empty()
    }

    /// The state once a section is kept for the next frame.
    pub open spec fn section_kept<L, G: GlyphPositioner>(
        self,
        section: VariedSection<'_, L>,
        layout: G,
    ) -> BrushState<'font, V, H> {
        if self.cache_positioning {
            BrushState {
                keep: self.keep.insert(SectionHashDetail::of(self.hasher, section, layout).full),
                ..self
            }
        } else {
            self
        }
    }

    /// The hash of the sections that are to be drawn.
    pub open spec fn text_state(self) -> u64 {
        crate::hashing::hashes_digest(self.hasher, self.buffer)
    }

    /// Whether the frame can be processed: where something must be drawn, its pixels can be
    /// counted.
    pub open spec fn processable(self) -> bool {
        self.must_draw() ==> self.frame_in_reach()
    }

    /// Whether something must be drawn that was not drawn last.
    pub open spec fn must_draw(self) -> bool {
        ||| !self.cache_drawing
        ||| self.last_draw != self.text_state()
        ||| !all_sections_equal(self.last_pre, self.pre)
    }

    /// Whether `after` is this state once the vertices of what is to be drawn are made, those
    /// of all sections anew if the texture was reordered, and a new frame has started.
    pub open spec fn finished<F: Fn(GlyphVertex) -> V>(
        self,
        after: BrushState<'font, V, H>,
        reordered: bool,
        vertices: Seq<V>,
        to_vertex: F,
    ) -> bool where V: Clone {
        exists|sections: Map<SectionHash, GlyphedView<'font, V>>|
            {
                &&& #[trigger] vertices_ensured(
                    self.sections_usable(reordered),
                    sections,
                    self.buffer,
                    self.rects(),
                    to_vertex,
                )
                &&& draws(vertices, sections, self.buffer, self.pre, self.rects(), to_vertex)
                &&& after == (BrushState {
                    last_draw: self.text_state(),
                    sections,
                    ..self
                }).after_frame()
            }
    }

    /// Whether processing the frame can have this outcome, and leave the state `after`:
    ///
    /// * what was drawn last is drawn again just where nothing has changed, and a new frame
    ///   starts;
    /// * else what is queued is drawn, from a texture that holds all glyphs of the frame, which
    ///   nothing moves in if it held them before;
    /// * or these glyphs do not fit, which is told with a larger size of the texture, and
    ///   everything stays queued.
    ///
    /// What fits is drawn, whatever the texture held, and what is too large is not.
    pub open spec fn processed<F: Fn(GlyphVertex) -> V>(
        self,
        after: BrushState<'font, V, H>,
        outcome: Result<BrushAction<V>, BrushError>,
        to_vertex: F,
    ) -> bool where V: Clone {
        match outcome {
            Ok(BrushAction::ReDraw) => !self.must_draw() && after == self.after_frame(),
            Ok(BrushAction::Draw(vertices)) => {
                &&& self.must_draw()
                &&& !self.frame_too_large()
                &&& self.nothing_lacking() ==> after.rects() == self.rects()
                &&& exists|cached: BrushState<'font, V, H>, reordered: bool| #[trigger]
                    self.text_cached(cached, reordered) && cached.finished(
                        after,
                        reordered,
                        vertices@,
                        to_vertex,
                    )
            },
            Err(BrushError::TextureTooSmall { suggested }) => {
                &&& self.must_draw()
                &&& self.text_refused(after)
                &&& suggested.0 == self.larger_size().0
                &&& suggested.1 == self.larger_size().1
                &&& !self.nothing_lacking()
                &&& !self.frame_fits()
            },
        }
    }
}

} // verus!
