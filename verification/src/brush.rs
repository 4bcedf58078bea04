//! The brush: it positions, caches and draws sections of text.
use crate::builder::GlyphBrushBuilder;
use crate::float32::Float32;
use crate::font::read_font;
use crate::geometry::Rectangle;
use crate::glyph::{FontId, GlyphedSection, SectionGlyph, SectionView};
use crate::glyphed::{GlyphVertex, Glyphed, GlyphedView};
use crate::hashing::{
    hash_hashes, DefaultSectionHasher, SectionHash, SectionHashDetail, SectionHasher,
};
use crate::section::{GlyphPositioner, SectionGeometry, VariedSection};
use crate::state::BrushState;
use crate::store::{
    hashes_in, invalidate_sections, new_map, new_set, retain_sections, HashesSet, SectionMap,
};
use crate::texture::{
    cache_dimensions, cache_queued, cache_to_builder, queue_glyph, rebuild_cache, size_builder,
    Cached,
};
use rusttype::gpu_cache::{Cache, CacheWriteErr};
use rusttype::{Font, PositionedGlyph};
use std::borrow::Cow;
use vstd::prelude::*;

verus! {

/// What was drawn last.
#[derive(Debug, Clone, Copy)]
struct LastDrawInfo {
    text_state: u64,
}

/// Actions that should be taken after processing queue data.
#[derive(Debug)]
pub enum BrushAction<V> {
    /// Draw new/changed vertex data.
    Draw(Vec<V>),
    /// Re-draw last frame's vertices unmodified.
    ReDraw,
}

/// Why queued sections could not be processed.
#[derive(Debug, PartialEq)]
pub enum BrushError {
    /// Texture is too small to cache queued glyphs.
    ///
    /// A larger suggested size is included.
    TextureTooSmall { suggested: (u32, u32) },
}

impl Clone for BrushError {
    fn clone(&self) -> (r: Self)
        ensures
            r == *self,
    {
        match self {
            BrushError::TextureTooSmall { suggested } => {
                BrushError::TextureTooSmall { suggested: *suggested }
            },
        }
    }
}

impl BrushError {
    /// What went wrong, in words.
    pub fn description(&self) -> (r: &'static str)
        ensures
            r@ == "Texture is too small to cache queued glyphs"@,
    {
        match self {
            BrushError::TextureTooSmall { .. } => "Texture is too small to cache queued glyphs",
        }
    }
}

/// Object allowing glyph drawing, containing cache state. Manages glyph positioning caching,
/// glyph draw caching & efficient GPU texture cache updating.
///
/// # Caching behaviour
///
/// Calls to [`GlyphBrush::queue`], [`GlyphBrush::pixel_bounds_custom_layout`] and
/// [`GlyphBrush::glyphs_custom_layout`] calculate the positioned glyphs for a section. This is
/// cached so future calls to any of the methods for the same section are much cheaper. In the
/// case of [`GlyphBrush::queue`] the calculations will also be used for actual drawing.
///
/// The cache for a section will be **cleared** after a [`GlyphBrush::process_queued`] call when
/// that section has not been used since the previous call.
#[verifier::reject_recursive_types(V)]
pub struct GlyphBrush<'font, V, H = DefaultSectionHasher> {
    fonts: Vec<Font<'font>>,
    texture_cache: Cache<'font>,
    last_draw: LastDrawInfo,
    // cache of section-layout hash -> computed glyphs, this avoids repeated glyph computation
    // for identical layout/sections common to repeated frame rendering
    calculate_glyph_cache: SectionMap<'font, V>,
    last_frame_seq_id_sections: Vec<SectionHashDetail>,
    frame_seq_id_sections: Vec<SectionHashDetail>,
    // buffer of section-layout hashes (that must exist in the calculate_glyph_cache)
    // to be used on the next `process_queued` call
    section_buffer: Vec<SectionHash>,
    // Set of section hashes to keep in the glyph cache this frame even if they haven't been drawn
    keep_in_cache: HashesSet,
    // config
    cache_glyph_positioning: bool,
    cache_glyph_drawing: bool,
    section_hasher: H,
    last_pre_positioned: Vec<Glyphed<'font, V>>,
    pre_positioned: Vec<Glyphed<'font, V>>,
}

/// The sections in a list.
pub open spec fn sections_in<'font, V>(list: Seq<Glyphed<'font, V>>) -> Seq<SectionView<'font>> {
    list.map_values(|g: Glyphed<'font, V>| g.positioned@)
}

impl<'font, V, H> View for GlyphBrush<'font, V, H> {
    type V = BrushState<'font, V, H>;

    closed spec fn view(&self) -> BrushState<'font, V, H> {
        BrushState {
            fonts: self.fonts,
            texture: self.texture_cache,
            last_draw: self.last_draw.text_state,
            sections: crate::store::sections_of(self.calculate_glyph_cache@),
            last_details: self.last_frame_seq_id_sections@,
            details: self.frame_seq_id_sections@,
            buffer: self.section_buffer@,
            keep: self.keep_in_cache@,
            cache_positioning: self.cache_glyph_positioning,
            cache_drawing: self.cache_glyph_drawing,
            hasher: self.section_hasher,
            last_pre: sections_in(self.last_pre_positioned@),
            pre: sections_in(self.pre_positioned@),
        }
    }
}

impl<'font, V, H> GlyphBrush<'font, V, H> {
    /// What holds of every brush: its state is valid, its tables work, its texture pads glyphs,
    /// its glyphs can be drawn, no section has more vertices than glyphs, and sections that came
    /// positioned have no vertices yet.
    pub closed spec fn wf(&self) -> bool {
        &&& self@.valid()
        &&& crate::store::tables_work()
        &&& crate::texture::texture_attributes(self.texture_cache).pad_glyphs
        &&& self@.drawable()
        &&& self@.vertices_bounded()
        &&& forall|i: int|
            0 <= i < self.pre_positioned@.len() ==> (#[trigger] self.pre_positioned@[i])@.vertices.len()
                == 0
    }

    /// Every section that is to be drawn by a brush is positioned, and used in this frame, and no
    /// section has more vertices than glyphs.
    pub proof fn brushes_are_valid(&self)
        requires
            self.wf(),
        ensures
            self@.valid(),
            self@.vertices_bounded(),
    {
    }
}

impl<'font, V: Clone, H: SectionHasher> GlyphBrush<'font, V, H> {
    /// The glyphs of the section, changed from those of its counterpart in the last frame if
    /// these can be used. The counterpart is taken out of the cache unless it is used in this
    /// frame.
    fn reuse_glyphs<L, G: GlyphPositioner>(
        &mut self,
        section: &VariedSection<'_, L>,
        layout: &G,
        geometry: &SectionGeometry,
        section_hash: SectionHashDetail,
        frame_seq_id: usize,
    ) -> (r: Option<Vec<SectionGlyph<'font>>>)
        requires
            old(self).wf(),
            old(self)@.cache_positioning,
            frame_seq_id == old(self)@.details.len(),
            *geometry == section.geometry_spec(),
        ensures
            final(self).wf(),
            final(self)@ == (BrushState {
                sections: old(self)@.sections_left(section_hash),
                ..old(self)@
            }),
            r is Some == old(self)@.reusable(section_hash) is Some,
            r matches Some(glyphs) ==> crate::state::recalculated(
                *layout,
                old(self)@.sections[(old(self)@.reusable(section_hash)->0).0].positioned.glyphs,
                (old(self)@.reusable(section_hash)->0).1,
                old(self)@.fonts,
                *geometry,
                section.text,
                glyphs,
            ),
    {
        if frame_seq_id >= self.last_frame_seq_id_sections.len() {
            return None;
        }
        let hash: SectionHashDetail = self.last_frame_seq_id_sections[frame_seq_id];
        let change = match section_hash.change(hash) {
            Some(change) => change,
            None => {
                return None;
            },
        };
        let ghost before = self.calculate_glyph_cache@;
        if self.keep_in_cache.contains(&hash.full) {
            match self.calculate_glyph_cache.get(&hash.full) {
                Some(cached) => {
                    let previous: Cow<'_, Vec<SectionGlyph<'font>>> = Cow::Borrowed(
                        &cached.positioned.glyphs,
                    );
                    assert(previous@ == old(self)@.sections[hash.full].positioned.glyphs);
                    assert(old(self)@.reusable(section_hash) == Some((hash.full, change)));
                    let glyphs = layout.recalculate_glyphs(
                        previous,
                        change,
                        &self.fonts,
                        geometry,
                        &section.text,
                    );
                    assert(call_ensures(
                        G::recalculate_glyphs,
                        (layout, previous, change, &self.fonts, geometry, &section.text),
                        glyphs,
                    ));
                    Some(glyphs)
                },
                None => None,
            }
        } else {
            let removed = self.calculate_glyph_cache.remove(&hash.full);
            proof {
                let left = old(self)@.sections_left(section_hash);
                if before.contains_key(hash.full) {
                    assert(self@.sections =~= left);
                } else {
                    assert(self@.sections =~= left);
                }
                assert(self@ =~= (BrushState { sections: left, ..old(self)@ }));
            }
            match removed {
                Some(old_section) => {
                    let previous: Cow<'_, Vec<SectionGlyph<'font>>> = Cow::Owned(
                        old_section.positioned.glyphs,
                    );
                    assert(previous@ == old(self)@.sections[hash.full].positioned.glyphs);
                    assert(old(self)@.reusable(section_hash) == Some((hash.full, change)));
                    let glyphs = layout.recalculate_glyphs(
                        previous,
                        change,
                        &self.fonts,
                        geometry,
                        &section.text,
                    );
                    assert(call_ensures(
                        G::recalculate_glyphs,
                        (layout, previous, change, &self.fonts, geometry, &section.text),
                        glyphs,
                    ));
                    Some(glyphs)
                },
                None => None,
            }
        }
    }

    /// Returns the calculate_glyph_cache key for this sections glyphs.
    fn cache_glyphs<L, G: GlyphPositioner>(
        &mut self,
        section: &VariedSection<'_, L>,
        layout: &G,
    ) -> (r: SectionHash)
        requires
            old(self).wf(),
            old(self)@.fonts@.len() > 0,
        ensures
            final(self).wf(),
            old(self)@.glyphs_cached(final(self)@, *section, *layout),
            r == SectionHashDetail::of(old(self)@.hasher, *section, *layout).full,
            final(self)@.sections.contains_key(r),
    {
        let section_hash = SectionHashDetail::new(&self.section_hasher, section, layout);
        // section id used to find a similar calculated layout from last frame
        let frame_seq_id: usize = self.frame_seq_id_sections.len();
        if self.cache_glyph_positioning && self.calculate_glyph_cache.contains_key(
            &section_hash.full,
        ) {
            self.frame_seq_id_sections.push(section_hash);
            proof {
                assert(self@.sections == old(self)@.sections);
                assert(self@ =~= (BrushState {
                    details: old(self)@.details.push(section_hash),
                    sections: self@.sections,
                    ..old(self)@
                }));
            }
            return section_hash.full;
        }
        let geometry = section.geometry();
        let recalculated_glyphs: Option<Vec<SectionGlyph<'font>>> = if self.cache_glyph_positioning {
            self.reuse_glyphs(section, layout, &geometry, section_hash, frame_seq_id)
        } else {
            None
        };
        let bounds = layout.bounds_rect(&geometry);
        let glyphs: Vec<SectionGlyph<'font>> = match recalculated_glyphs {
            Some(glyphs) => glyphs,
            None => {
                let glyphs = layout.calculate_glyphs(&self.fonts, &geometry, &section.text);
                assert(crate::state::calculated(
                    *layout,
                    self.fonts,
                    geometry,
                    section.text,
                    glyphs,
                ));
                glyphs
            },
        };
        let ghost mid = self@;
        let ghost positioned = SectionView { bounds, glyphs: glyphs@, z: section.z };
        self.frame_seq_id_sections.push(section_hash);
        self.calculate_glyph_cache.insert(
            section_hash.full,
            Glyphed::new(GlyphedSection { bounds, glyphs, z: section.z }),
        );
        proof {
            assert(self@.sections =~= mid.sections.insert(
                section_hash.full,
                GlyphedView::<V>::fresh(positioned),
            ));
            assert(mid.sections == old(self)@.sections_left(section_hash));
            assert(old(self)@.laid_out(section_hash, *section, *layout, positioned));
            assert(self@ =~= (BrushState {
                details: old(self)@.details.push(section_hash),
                sections: self@.sections,
                ..old(self)@
            }));
            assert(self@.valid());
        }
        section_hash.full
    }

    /// Starts a new frame: forgets the sections that were not used in this one.
    fn cleanup_frame(&mut self)
        requires
            old(self).wf(),
        ensures
            final(self).wf(),
            final(self)@ == old(self)@.after_frame(),
    {
        if self.cache_glyph_positioning {
            // clear section_buffer & trim calculate_glyph_cache to active sections
            retain_sections(&mut self.calculate_glyph_cache, &self.keep_in_cache);
            self.keep_in_cache.clear();
            self.section_buffer.clear();
        } else {
            self.section_buffer.clear();
            self.calculate_glyph_cache.clear();
            self.keep_in_cache.clear();
            assert(self@.sections =~= Map::empty());
        }
        std::mem::swap(&mut self.last_frame_seq_id_sections, &mut self.frame_seq_id_sections);
        self.frame_seq_id_sections.clear();
        std::mem::swap(&mut self.last_pre_positioned, &mut self.pre_positioned);
        self.pre_positioned.clear();
        assert(self@.pre =~= Seq::empty());
        assert(self@ =~= old(self)@.after_frame());
    }

    /// Queues the glyphs of all sections that are used in this frame. Returns whether there
    /// were any.
    fn queue_frame(&mut self) -> (some_text: bool)
        requires
            old(self).wf(),
            old(self)@.frame_in_reach(),
        ensures
            final(self).wf(),
            final(self)@ == (BrushState { texture: final(self)@.texture, ..old(self)@ }),
            some_text == old(self)@.any_text(),
            final(self)@.rects() == old(self)@.rects(),
            crate::texture::texture_attributes(final(self)@.texture)
                == crate::texture::texture_attributes(old(self)@.texture),
            exists|order: Seq<SectionHash>|
                {
                    &&& #[trigger] old(self)@.orders_kept(order)
                    &&& crate::texture::texture_queue(final(self)@.texture) == old(
                        self,
                    )@.frame_queue(order)
                },
    {
        let mut some_text: bool = false;
        let ghost start = crate::texture::texture_queue(self.texture_cache);
        // Everything in the section_buffer should also be here. The extras should also
        // be retained in the texture cache avoiding cache thrashing if they are rendered
        // in a 2-draw per frame style.
        let kept = hashes_in(&self.keep_in_cache);
        let mut k: usize = 0;
        while k < kept.len()
            invariant
                k <= kept@.len(),
                old(self).wf(),
                old(self)@.frame_in_reach(),
                crate::texture::queue_drawable(crate::texture::texture_queue(self@.texture)),
                *self == (GlyphBrush { texture_cache: self.texture_cache, ..*old(self) }),
                self@.rects() == old(self)@.rects(),
                crate::texture::texture_attributes(self@.texture)
                    == crate::texture::texture_attributes(old(self)@.texture),
                start == crate::texture::texture_queue(old(self)@.texture),
                crate::texture::texture_queue(self@.texture) == crate::state::queue_listed(
                    start,
                    old(self)@.sections,
                    kept@.take(k as int),
                ),
                kept@.to_set() == old(self)@.keep,
                some_text == exists|j: int|
                    0 <= j < k && old(self)@.sections.contains_key(#[trigger] kept@[j]) && old(
                        self,
                    )@.sections[kept@[j]].positioned.glyphs.len() > 0,
            decreases kept@.len() - k,
        {
            let hash: SectionHash = kept[k];
            assert(kept@.to_set().contains(kept@[k as int]));
            match self.calculate_glyph_cache.get(&hash) {
                Some(glyphed) => {
                    assert(old(self)@.sections.contains_key(hash));
                    queue_section(&mut self.texture_cache, &glyphed.positioned.glyphs);
                    if glyphed.positioned.glyphs.len() > 0 {
                        some_text = true;
                    }
                },
                None => {},
            }
            proof {
                assert(kept@.take(k + 1).drop_last() =~= kept@.take(k as int));
                assert(old(self)@.sections.contains_key(kept@[k as int]) == old(
                    self,
                )@.sections.contains_key(hash));
            }
            k = k + 1;
        }
        proof {
            assert(kept@.take(k as int) =~= kept@);
            if some_text {
                let j = choose|j: int|
                    0 <= j < k && old(self)@.sections.contains_key(#[trigger] kept@[j]) && old(
                        self,
                    )@.sections[kept@[j]].positioned.glyphs.len() > 0;
                assert(kept@.to_set().contains(kept@[j]));
            } else {
                assert forall|h: SectionHash|
                    old(self)@.keep.contains(h) && #[trigger] old(self)@.sections.contains_key(
                        h,
                    ) implies old(self)@.sections[h].positioned.glyphs.len() == 0 by {
                    assert(kept@.to_set().contains(h));
                    let j = choose|j: int| 0 <= j < kept@.len() && kept@[j] == h;
                    assert(old(self)@.sections.contains_key(kept@[j]));
                }
            }
        }
        let ghost listed = crate::texture::texture_queue(self@.texture);
        let ghost listed_text = some_text;
        let mut i: usize = 0;
        while i < self.pre_positioned.len()
            invariant
                i <= self.pre_positioned@.len(),
                old(self).wf(),
                old(self)@.frame_in_reach(),
                crate::texture::queue_drawable(crate::texture::texture_queue(self@.texture)),
                *self == (GlyphBrush { texture_cache: self.texture_cache, ..*old(self) }),
                self@.rects() == old(self)@.rects(),
                crate::texture::texture_attributes(self@.texture)
                    == crate::texture::texture_attributes(old(self)@.texture),
                crate::texture::texture_queue(self@.texture) == crate::state::queue_positioned(
                    listed,
                    old(self)@.pre.take(i as int),
                ),
                some_text == (listed_text || exists|j: int|
                    0 <= j < i && (#[trigger] old(self)@.pre[j]).glyphs.len() > 0),
            decreases self.pre_positioned@.len() - i,
        {
            proof {
                assert(old(self)@.pre == self@.pre);
                assert(self@.pre[i as int] == self.pre_positioned@[i as int].positioned@);
                assert(old(self)@.pre[i as int].glyphs
                    == self.pre_positioned@[i as int].positioned.glyphs@);
                assert(crate::glyph::section_in_reach(old(self)@.pre[i as int]));
                assert(old(self)@.pre.take(i + 1).drop_last() =~= old(self)@.pre.take(i as int));
            }
            queue_section(&mut self.texture_cache, &self.pre_positioned[i].positioned.glyphs);
            if self.pre_positioned[i].positioned.glyphs.len() > 0 {
                some_text = true;
            }
            i = i + 1;
        }
        proof {
            assert(self@.pre.len() == self.pre_positioned@.len());
            assert(old(self)@.pre.take(i as int) =~= old(self)@.pre);
            assert(old(self)@.orders_kept(kept@));
        }
        some_text
    }

    /// Whether the sections that came positioned are those of the last frame.
    fn positioned_unchanged(&self) -> (r: bool)
        ensures
            r == crate::state::all_sections_equal(self@.last_pre, self@.pre),
    {
        if self.last_pre_positioned.len() != self.pre_positioned.len() {
            return false;
        }
        let mut i: usize = 0;
        while i < self.pre_positioned.len()
            invariant
                i <= self.pre_positioned@.len(),
                self.last_pre_positioned@.len() == self.pre_positioned@.len(),
                forall|j: int|
                    0 <= j < i ==> crate::glyph::sections_equal(
                        #[trigger] self@.last_pre[j],
                        self@.pre[j],
                    ),
            decreases self.pre_positioned@.len() - i,
        {
            if self.last_pre_positioned[i] != self.pre_positioned[i] {
                assert(!crate::glyph::sections_equal(
                    self@.last_pre[i as int],
                    self@.pre[i as int],
                ));
                return false;
            }
            i = i + 1;
        }
        true
    }

    /// Whether what is to be drawn was drawn last.
    fn is_unchanged(&self, text_state: u64) -> (r: bool)
        requires
            text_state == self@.text_state(),
        ensures
            r == !self@.must_draw(),
    {
        self.cache_glyph_drawing && self.last_draw.text_state == text_state
            && self.positioned_unchanged()
    }

    /// Makes the vertices of the sections that are to be drawn and returns them all.
    fn collect_vertices<F: Fn(GlyphVertex) -> V>(&mut self, to_vertex: &F) -> (verts: Vec<V>)
        requires
            old(self).wf(),
            old(self)@.frame_in_reach(),
            forall|vertex: GlyphVertex| call_requires(*to_vertex, (vertex,)),
        ensures
            final(self).wf(),
            final(self)@ == (BrushState { sections: final(self)@.sections, ..old(self)@ }),
            crate::state::vertices_ensured(
                old(self)@.sections,
                final(self)@.sections,
                old(self)@.buffer,
                old(self)@.rects(),
                *to_vertex,
            ),
            crate::state::draws(
                verts@,
                final(self)@.sections,
                old(self)@.buffer,
                old(self)@.pre,
                old(self)@.rects(),
                *to_vertex,
            ),
    {
        let mut verts: Vec<V> = Vec::new();
        let ghost rects = self@.rects();
        let ghost start = self@.sections;
        let ghost buffer = self@.buffer;
        let mut i: usize = 0;
        while i < self.section_buffer.len()
            invariant
                i <= self.section_buffer@.len(),
                old(self).wf(),
                old(self)@.frame_in_reach(),
                forall|vertex: GlyphVertex| call_requires(*to_vertex, (vertex,)),
                *self == (GlyphBrush {
                    calculate_glyph_cache: self.calculate_glyph_cache,
                    ..*old(self)
                }),
                rects == old(self)@.rects(),
                start == old(self)@.sections,
                buffer == old(self)@.buffer,
                crate::state::vertices_ensured(
                    start,
                    self@.sections,
                    buffer.take(i as int),
                    rects,
                    *to_vertex,
                ),
                verts@.len() == crate::state::listed_vertices(
                    self@.sections,
                    buffer.take(i as int),
                ).len(),
                forall|j: int|
                    0 <= j < verts@.len() ==> cloned(
                        crate::state::listed_vertices(self@.sections, buffer.take(i as int))[j],
                        #[trigger] verts@[j],
                    ),
            decreases self.section_buffer@.len() - i,
        {
            let hash: SectionHash = self.section_buffer[i];
            let ghost before = self@.sections;
            let ghost done = buffer.take(i as int);
            proof {
                assert(old(self)@.sections.contains_key(old(self)@.buffer[i as int]));
                assert(before.dom().contains(hash));
            }
            if let Some(glyphed) = self.calculate_glyph_cache.remove(&hash) {
                let mut glyphed = glyphed;
                glyphed.ensure_vertices(&self.texture_cache, to_vertex);
                let ghost collected = verts@;
                verts.extend_from_slice(glyphed.vertices.as_slice());
                let ghost made = glyphed@;
                self.calculate_glyph_cache.insert(hash, glyphed);
                proof {
                    assert(self@.sections =~= before.insert(hash, made));
                    assert(buffer.take(i + 1).drop_last() =~= done);
                    crate::coherence::lemma_one_more_made(
                        start,
                        before,
                        done,
                        hash,
                        made,
                        rects,
                        *to_vertex,
                    );
                    assert(buffer.take(i + 1) =~= done.push(hash));
                    crate::coherence::lemma_listed_vertices_agree(before, self@.sections, done);
                    let own = crate::state::listed_vertices(self@.sections, done);
                    assert(crate::state::listed_vertices(self@.sections, done.push(hash)) == own
                        + made.vertices);
                    assert forall|j: int| 0 <= j < verts@.len() implies cloned(
                        (own + made.vertices)[j],
                        #[trigger] verts@[j],
                    ) by {
                        if j < own.len() {
                            assert(verts@[j] == collected[j]);
                        }
                    }
                }
            }
            i = i + 1;
        }
        proof {
            assert(buffer.take(i as int) =~= buffer);
            crate::coherence::lemma_made_are_bounded(
                start,
                self@.sections,
                buffer,
                rects,
                *to_vertex,
            );
        }
        let ghost own = crate::state::listed_vertices(self@.sections, buffer);
        let ghost mid = *self;
        let mut k: usize = 0;
        while k < self.pre_positioned.len()
            invariant
                k <= self.pre_positioned@.len(),
                forall|vertex: GlyphVertex| call_requires(*to_vertex, (vertex,)),
                mid.wf(),
                mid@.frame_in_reach(),
                *self == (GlyphBrush { pre_positioned: self.pre_positioned, ..mid }),
                sections_in(self.pre_positioned@) == sections_in(mid.pre_positioned@),
                forall|j: int|
                    0 <= j < self.pre_positioned@.len() ==> (
                    #[trigger] self.pre_positioned@[j])@.vertices.len() == 0,
                rects == mid@.rects(),
                own.len() <= verts@.len(),
                forall|j: int| 0 <= j < own.len() ==> cloned(own[j], #[trigger] verts@[j]),
                crate::glyphed::made_by(
                    *to_vertex,
                    crate::state::positioned_vertices(mid@.pre.take(k as int), rects),
                    verts@.skip(own.len() as int),
                ),
            decreases self.pre_positioned@.len() - k,
        {
            let ghost before = self.pre_positioned@;
            let ghost collected = verts@;
            proof {
                assert(sections_in(before)[k as int] == before[k as int].positioned@);
                assert(crate::glyph::section_in_reach(mid@.pre[k as int]));
            }
            // pre-positioned glyph vertices can't be cached so
            // generate & move straight into draw vec
            let glyphed = &mut self.pre_positioned[k];
            glyphed.ensure_vertices(&self.texture_cache, to_vertex);
            let ghost made = glyphed@;
            verts.append(&mut glyphed.vertices);
            proof {
                let n = own.len() as int;
                let pre = mid@.pre;
                assert(pre.take(k + 1).drop_last() =~= pre.take(k as int));
                assert(verts@.skip(n) =~= collected.skip(n) + made.vertices);
                crate::coherence::lemma_made_in_turn(
                    *to_vertex,
                    crate::state::positioned_vertices(pre.take(k as int), rects),
                    collected.skip(n),
                    made.drawn,
                    made.vertices,
                );
            }
            k = k + 1;
        }
        proof {
            assert(mid@.pre.len() == self.pre_positioned@.len());
            assert(mid@.pre.take(k as int) =~= mid@.pre);
        }
        verts
    }

    /// Finishes a frame after an attempt to draw its glyphs into the texture, if there were any
    /// glyphs.
    pub(crate) fn finish_frame<F: Fn(GlyphVertex) -> V>(
        &mut self,
        cached: Option<Result<Cached, CacheWriteErr>>,
        text_state: u64,
        to_vertex: &F,
    ) -> (r: Result<BrushAction<V>, BrushError>)
        requires
            old(self).wf(),
            old(self)@.frame_in_reach(),
            text_state == old(self)@.text_state(),
            forall|vertex: GlyphVertex| call_requires(*to_vertex, (vertex,)),
        ensures
            final(self).wf(),
            match cached {
                Some(Err(_)) => {
                    &&& r == Err::<BrushAction<V>, BrushError>(
                        BrushError::TextureTooSmall {
                            suggested: (
                                old(self)@.larger_size().0 as u32,
                                old(self)@.larger_size().1 as u32,
                            ),
                        },
                    )
                    &&& final(self)@ == old(self)@
                },
                _ => r matches Ok(BrushAction::Draw(verts)) && old(self)@.finished(
                    final(self)@,
                    cached == Some(Ok::<Cached, CacheWriteErr>(Cached::Reordering)),
                    verts@,
                    *to_vertex,
                ),
            },
    {
        match cached {
            None => {},
            Some(Ok(Cached::Adding)) => {},
            Some(Ok(Cached::Reordering)) => {
                invalidate_sections(&mut self.calculate_glyph_cache);
            },
            Some(Err(_)) => {
                let (width, height): (u32, u32) = cache_dimensions(&self.texture_cache);
                return Err(
                    BrushError::TextureTooSmall { suggested: (larger(width), larger(height)) },
                );
            },
        }
        self.last_draw = LastDrawInfo { text_state };
        let ghost reordered = cached == Some(Ok::<Cached, CacheWriteErr>(Cached::Reordering));
        proof {
            assert(self@ =~= (BrushState {
                last_draw: old(self)@.text_state(),
                sections: old(self)@.sections_usable(reordered),
                ..old(self)@
            }));
        }
        let verts = self.collect_vertices(to_vertex);
        let ghost sections = self@.sections;
        proof {
            assert(crate::state::vertices_ensured(
                old(self)@.sections_usable(reordered),
                sections,
                old(self)@.buffer,
                old(self)@.rects(),
                *to_vertex,
            ));
            assert(self@ =~= (BrushState {
                last_draw: old(self)@.text_state(),
                sections,
                ..old(self)@
            }));
        }
        self.cleanup_frame();
        Ok(BrushAction::Draw(verts))
    }

    /// Processes all queued sections, calling texture update logic when necessary &
    /// returning a `BrushAction`. See [`queue`](GlyphBrush::queue).
    ///
    /// Two closures are required:
    /// * `update_texture` is called when new glyph texture data has been drawn for update in the
    ///   actual texture. The arguments are the rect position of the data in the texture & the
    ///   byte data itself which is a single `u8` alpha value per pixel.
    /// * `to_vertex` maps a single glyph's `GlyphVertex` data into a generic vertex type. The
    ///   mapped vertices are returned in an `Ok(BrushAction::Draw(vertices))` result. It's
    ///   recommended to use a single vertex per glyph quad for best performance.
    ///
    /// Trims the cache, see [caching behaviour](GlyphBrush#caching-behaviour).
    ///
    /// A frame is never refused whose glyphs are all in the texture, or would fit into it in
    /// cells of one size or one above the other if it were empty. One is refused if all that the
    /// texture lacks of it is too large.
    ///
    /// Unless the frame is only redrawn, its glyphs must lie where pixels can be counted. Where
    /// that is not known [`try_process_queued`](GlyphBrush::try_process_queued) tests it.
    /// `update_texture` is called with rectangles in the texture, and data of their size.
    pub fn process_queued<F1, F2>(&mut self, update_texture: F1, to_vertex: F2) -> (r: Result<
        BrushAction<V>,
        BrushError,
    >) where F1: FnMut(rusttype::Rect<u32>, &[u8]), F2: Fn(GlyphVertex) -> V + Copy
        requires
            old(self).wf(),
            old(self)@.processable(),
            crate::texture::uploads_taken(
                update_texture,
                crate::texture::texture_attributes(old(self)@.texture),
            ),
            forall|vertex: GlyphVertex| call_requires(to_vertex, (vertex,)),
        ensures
            final(self).wf(),
            old(self)@.processed(final(self)@, r, to_vertex),
            (r matches Ok(BrushAction::Draw(_))) && !old(self)@.text_held(old(self)@.rects())
                ==> crate::texture::upload_made(
                update_texture,
                crate::texture::texture_attributes(old(self)@.texture),
            ),
            old(self)@.nothing_lacking() || old(self)@.frame_fits() ==> r is Ok,
            old(self)@.must_draw() && old(self)@.frame_too_large() ==> r is Err,
            old(self)@.coherent() && r is Ok ==> final(self)@.coherent(),
    {
        let text_state: u64 = hash_hashes(&self.section_hasher, &self.section_buffer);
        if self.is_unchanged(text_state) {
            self.cleanup_frame();
            return Ok(BrushAction::ReDraw);
        }
        let some_text = self.queue_frame();
        let ghost queued = self@;
        let ghost order = choose|order: Seq<SectionHash>|
            {
                &&& #[trigger] old(self)@.orders_kept(order)
                &&& crate::texture::texture_queue(queued.texture) == old(self)@.frame_queue(order)
            };
        let cached: Option<Result<Cached, CacheWriteErr>> = if some_text {
            Some(cache_queued(&mut self.texture_cache, update_texture))
        } else {
            None
        };
        let ghost reordered = cached == Some(Ok::<Cached, CacheWriteErr>(Cached::Reordering));
        let ghost mid = self@;
        proof {
            if some_text && cached->0 is Ok {
                let wait = crate::texture::texture_queue(queued.texture);
                assert forall|x: (usize, PositionedGlyph<'font>)| #[trigger]
                    wait.contains(x) implies mid.rects().contains_key(x) && (!reordered
                    && queued.rects().contains_key(x) ==> mid.rects()[x] == queued.rects()[x]) by {
                    let i = choose|i: int| 0 <= i < wait.len() && wait[i] == x;
                    assert(mid.rects().contains_key(wait[i]));
                }
                crate::coherence::lemma_frame_is_held(old(self)@, order, mid.rects());
                if old(self)@.coherent() && !reordered {
                    crate::coherence::lemma_kept_still_shown(old(self)@, order, mid.rects());
                }
            }
            if !some_text {
                crate::coherence::lemma_no_text_no_queue(old(self)@, order);
            }
            if old(self)@.nothing_lacking() {
                crate::coherence::lemma_held_frame_queued(old(self)@, order);
                let wait = crate::texture::texture_queue(queued.texture);
                assert forall|i: int| 0 <= i < wait.len() implies queued.rects().contains_key(
                    #[trigger] wait[i],
                ) by {
                    assert(wait.contains(wait[i]));
                }
            }
            if some_text && !old(self)@.text_held(old(self)@.rects()) {
                let wait = crate::texture::texture_queue(queued.texture);
                if forall|x: (usize, PositionedGlyph<'font>)| #[trigger]
                    wait.contains(x) ==> queued.rects().contains_key(x) {
                    crate::coherence::lemma_frame_is_held(old(self)@, order, queued.rects());
                }
                let x = choose|x: (usize, PositionedGlyph<'font>)| #[trigger]
                    wait.contains(x) && !queued.rects().contains_key(x);
                let i = choose|i: int| 0 <= i < wait.len() && wait[i] == x;
                assert(!queued.rects().contains_key(wait[i]));
                assert(crate::texture::queue_lacking(queued.texture));
            }
            assert(!some_text || cached->0 is Ok ==> old(self)@.text_cached(mid, reordered));
        }
        let r = self.finish_frame(cached, text_state, &to_vertex);
        proof {
            if old(self)@.coherent() && r is Ok {
                crate::coherence::lemma_drawing_keeps_coherence(
                    old(self)@,
                    mid,
                    self@,
                    reordered,
                    (r->Ok_0)->Draw_0@,
                    to_vertex,
                );
            }
        }
        r
    }

    /// Tests whether all glyphs that are used in this frame can be drawn into a texture.
    fn check_reach(&self) -> (r: bool)
        requires
            self.wf(),
        ensures
            r == self@.frame_in_reach(),
    {
        let kept = hashes_in(&self.keep_in_cache);
        let mut k: usize = 0;
        while k < kept.len()
            invariant
                k <= kept@.len(),
                self.wf(),
                kept@.to_set() == self@.keep,
                forall|j: int|
                    0 <= j < k && self@.sections.contains_key(#[trigger] kept@[j])
                        ==> crate::glyph::section_in_reach(self@.sections[kept@[j]].positioned),
            decreases kept@.len() - k,
        {
            assert(kept@.to_set().contains(kept@[k as int]));
            if let Some(glyphed) = self.calculate_glyph_cache.get(&kept[k]) {
                if !glyphed.positioned.in_reach() {
                    assert(self@.sections.contains_key(kept@[k as int]));
                    return false;
                }
            }
            k = k + 1;
        }
        proof {
            assert forall|h: SectionHash|
                self@.keep.contains(h) && #[trigger] self@.sections.contains_key(
                    h,
                ) implies crate::glyph::section_in_reach(self@.sections[h].positioned) by {
                assert(kept@.to_set().contains(h));
                let j = choose|j: int| 0 <= j < kept@.len() && kept@[j] == h;
                assert(self@.sections.contains_key(kept@[j]));
            }
        }
        let mut i: usize = 0;
        while i < self.pre_positioned.len()
            invariant
                i <= self.pre_positioned@.len(),
                forall|j: int|
                    0 <= j < i ==> crate::glyph::section_in_reach(#[trigger] self@.pre[j]),
            decreases self.pre_positioned@.len() - i,
        {
            if !self.pre_positioned[i].positioned.in_reach() {
                assert(!crate::glyph::section_in_reach(self@.pre[i as int]));
                return false;
            }
            i = i + 1;
        }
        true
    }

    /// Processes all queued sections as [`process_queued`](GlyphBrush::process_queued) does, if
    /// what that asks for holds. Else returns nothing and leaves the brush as it is.
    pub fn try_process_queued<F1, F2>(&mut self, update_texture: F1, to_vertex: F2) -> (r: Option<
        Result<BrushAction<V>, BrushError>,
    >) where F1: FnMut(rusttype::Rect<u32>, &[u8]), F2: Fn(GlyphVertex) -> V + Copy
        requires
            old(self).wf(),
            crate::texture::uploads_taken(
                update_texture,
                crate::texture::texture_attributes(old(self)@.texture),
            ),
            forall|vertex: GlyphVertex| call_requires(to_vertex, (vertex,)),
        ensures
            final(self).wf(),
            r is Some <==> old(self)@.processable(),
            r is None ==> final(self)@ == old(self)@,
            r matches Some(processed) ==> old(self)@.processed(
                final(self)@,
                processed,
                to_vertex,
            ),
            (r matches Some(Ok(BrushAction::Draw(_)))) && !old(self)@.text_held(
                old(self)@.rects(),
            ) ==> crate::texture::upload_made(
                update_texture,
                crate::texture::texture_attributes(old(self)@.texture),
            ),
            r is Some && (old(self)@.nothing_lacking() || old(self)@.frame_fits()) ==> r->0 is Ok,
            r is Some && old(self)@.must_draw() && old(self)@.frame_too_large() ==> r->0 is Err,
            old(self)@.coherent() && r is Some && r->0 is Ok ==> final(self)@.coherent(),
    {
        let text_state: u64 = hash_hashes(&self.section_hasher, &self.section_buffer);
        if self.is_unchanged(text_state) || self.check_reach() {
            Some(self.process_queued(update_texture, to_vertex))
        } else {
            None
        }
    }

    /// Notes that a section is used in this frame.
    fn use_section<L, G: GlyphPositioner>(
        &mut self,
        section: &VariedSection<'_, L>,
        layout: &G,
    ) -> (r: SectionHash)
        requires
            old(self).wf(),
            old(self)@.fonts@.len() > 0,
        ensures
            final(self).wf(),
            old(self)@.section_used(final(self)@, *section, *layout),
            old(self)@.coherent() ==> final(self)@.coherent(),
            r == SectionHashDetail::of(old(self)@.hasher, *section, *layout).full,
    {
        let section_hash: SectionHash = self.cache_glyphs(section, layout);
        let ghost mid = self@;
        self.keep_in_cache.insert(section_hash);
        proof {
            assert((BrushState { keep: old(self)@.keep, ..self@ }) =~= mid);
            if old(self)@.coherent() {
                crate::coherence::lemma_using_keeps_coherence(old(self)@, mid, *section, *layout);
            }
        }
        section_hash
    }

    /// The pixels that the glyphs of a section cover within its bounds; none if they cover
    /// none. Uses the given layout in place of the section's own.
    ///
    /// Benefits from caching, see [caching behaviour](GlyphBrush#caching-behaviour).
    pub fn pixel_bounds_custom_layout<L, G: GlyphPositioner>(
        &mut self,
        section: &VariedSection<'_, L>,
        custom_layout: &G,
    ) -> (r: Option<Rectangle<i32>>)
        requires
            old(self).wf(),
            old(self)@.fonts@.len() > 0,
        ensures
            final(self).wf(),
            old(self)@.section_used(final(self)@, *section, *custom_layout),
            final(self)@.covered_by(
                SectionHashDetail::of(old(self)@.hasher, *section, *custom_layout).full,
                r,
            ),
            old(self)@.coherent() ==> final(self)@.coherent(),
    {
        let section_hash: SectionHash = self.use_section(section, custom_layout);
        match self.calculate_glyph_cache.get(&section_hash) {
            Some(glyphed) => glyphed.positioned.pixel_bounds(),
            None => None,
        }
    }

    /// The positioned glyphs of a section, in order. Uses the given layout in place of the
    /// section's own.
    ///
    /// Benefits from caching, see [caching behaviour](GlyphBrush#caching-behaviour).
    pub fn glyphs_custom_layout<'b, L, G: GlyphPositioner>(
        &'b mut self,
        section: &VariedSection<'_, L>,
        custom_layout: &G,
    ) -> (r: Vec<&'b PositionedGlyph<'font>>)
        requires
            old(self).wf(),
            old(self)@.fonts@.len() > 0,
        ensures
            final(self).wf(),
            old(self)@.section_used(final(self)@, *section, *custom_layout),
            final(self)@.glyphs_are(
                SectionHashDetail::of(old(self)@.hasher, *section, *custom_layout).full,
                r@,
            ),
            forall|i: int|
                0 <= i < r@.len() ==> crate::texture::glyph_drawable(*(#[trigger] r@[i])),
            old(self)@.coherent() ==> final(self)@.coherent(),
    {
        let section_hash: SectionHash = self.use_section(section, custom_layout);
        match self.calculate_glyph_cache.get(&section_hash) {
            Some(glyphed) => glyphed.positioned.glyphs(),
            None => Vec::new(),
        }
    }

    /// The fonts of the brush, by the numbers in their `FontId`s.
    pub fn fonts(&self) -> (r: &[Font<'font>])
        ensures
            r@ == self@.fonts@,
    {
        self.fonts.as_slice()
    }

    /// Queues a section/layout to be processed by the next call of
    /// [`process_queued`](GlyphBrush::process_queued). Can be called multiple times to queue
    /// multiple sections for drawing.
    ///
    /// Used to provide custom `GlyphPositioner` logic; to use the section's own layout simply
    /// use [`queue`](GlyphBrush::queue).
    ///
    /// The brush must have a font, and all fonts that the section names.
    ///
    /// Benefits from caching, see [caching behaviour](GlyphBrush#caching-behaviour).
    pub fn queue_custom_layout<L, G: GlyphPositioner>(
        &mut self,
        section: &VariedSection<'_, L>,
        custom_layout: &G,
    )
        requires
            old(self).wf(),
            old(self)@.fonts@.len() > 0,
            section.fonts_known(old(self)@.fonts@.len()),
        ensures
            final(self).wf(),
            old(self)@.section_queued(final(self)@, *section, *custom_layout),
            old(self)@.coherent() ==> final(self)@.coherent(),
    {
        let section_hash: SectionHash = self.use_section(section, custom_layout);
        let ghost mid = self@;
        self.section_buffer.push(section_hash);
        proof {
            assert((BrushState { buffer: old(self)@.buffer, ..self@ }) =~= mid);
        }
    }

    /// Queues a section/layout to be processed by the next call of
    /// [`process_queued`](GlyphBrush::process_queued). Can be called multiple times to queue
    /// multiple sections for drawing.
    ///
    /// The brush must have a font, and all fonts that the section names.
    ///
    /// Benefits from caching, see [caching behaviour](GlyphBrush#caching-behaviour).
    pub fn queue<L: GlyphPositioner>(&mut self, section: &VariedSection<'_, L>)
        requires
            old(self).wf(),
            old(self)@.fonts@.len() > 0,
            section.fonts_known(old(self)@.fonts@.len()),
        ensures
            final(self).wf(),
            old(self)@.own_queued(final(self)@, *section),
            old(self)@.coherent() ==> final(self)@.coherent(),
    {
        self.queue_custom_layout(section, &section.layout)
    }

    /// Queues pre-positioned glyphs to be processed by the next call of
    /// [`process_queued`](GlyphBrush::process_queued). Can be called multiple times. The brush
    /// must have a font, and the glyphs must be such as can be drawn: those that a layout gives
    /// are.
    pub fn queue_pre_positioned(
        &mut self,
        glyphs: Vec<SectionGlyph<'font>>,
        bounds: Rectangle<Float32>,
        z: Float32,
    )
        requires
            old(self).wf(),
            old(self)@.fonts@.len() > 0,
            crate::section::glyphs_drawable(glyphs@),
        ensures
            final(self).wf(),
            final(self)@ == old(self)@.positioned_queued(
                SectionView { bounds, glyphs: glyphs@, z },
            ),
            old(self)@.coherent() ==> final(self)@.coherent(),
    {
        let ghost section = SectionView { bounds, glyphs: glyphs@, z };
        self.pre_positioned.push(Glyphed::new(GlyphedSection { bounds, glyphs, z }));
        proof {
            assert(self@.pre =~= old(self)@.pre.push(section));
            assert(self@ =~= (BrushState { pre: old(self)@.pre.push(section), ..old(self)@ }));
        }
    }

    /// Rebuilds the logical texture cache with new dimensions. Should be avoided if possible.
    pub fn resize_texture(&mut self, new_width: u32, new_height: u32)
        requires
            old(self).wf(),
        ensures
            final(self).wf(),
            old(self)@.texture_resized(final(self)@, new_width, new_height),
            final(self)@.texture_size() == (new_width, new_height),
            final(self)@.coherent(),
    {
        let builder = size_builder(cache_to_builder(&self.texture_cache), new_width, new_height);
        rebuild_cache(builder, &mut self.texture_cache);
        self.last_draw = LastDrawInfo { text_state: 0 };
        // invalidate any previous cache position data
        invalidate_sections(&mut self.calculate_glyph_cache);
        proof {
            assert(self@ =~= (BrushState {
                texture: self@.texture,
                last_draw: 0,
                sections: crate::store::invalidated(old(self)@.sections),
                ..old(self)@
            }));
        }
    }

    /// Returns the logical texture cache pixel dimensions `(width, height)`.
    pub fn texture_dimensions(&self) -> (r: (u32, u32))
        ensures
            r == self@.texture_size(),
    {
        cache_dimensions(&self.texture_cache)
    }

    /// Adds an additional font to the one(s) initially added on build.
    ///
    /// Returns a new [`FontId`] to reference this font.
    pub fn add_font<'a: 'font>(&mut self, font_data: Font<'a>) -> (r: FontId)
        requires
            old(self).wf(),
        ensures
            final(self).wf(),
            final(self)@ == (BrushState { fonts: final(self)@.fonts, ..old(self)@ }),
            final(self)@.fonts@ == old(self)@.fonts@.push(font_data),
            r.0 == old(self)@.fonts@.len(),
            final(self)@.fonts@[r.0 as int] == font_data,
            old(self)@.coherent() ==> final(self)@.coherent(),
    {
        self.fonts.push(font_data);
        assert(self@ =~= (BrushState { fonts: self@.fonts, ..old(self)@ }));
        FontId(self.fonts.len() - 1)
    }

    /// Adds an additional font to the one(s) initially added on build.
    ///
    /// Returns a new [`FontId`] to reference this font. The data must be that of a font; where
    /// that is not known [`try_add_font_bytes`](GlyphBrush::try_add_font_bytes) tests it.
    pub fn add_font_bytes<'a: 'font>(&mut self, font_data: &'a [u8]) -> (r: FontId)
        requires
            old(self).wf(),
            crate::font::is_font_data(font_data@),
        ensures
            final(self).wf(),
            final(self)@ == (BrushState { fonts: final(self)@.fonts, ..old(self)@ }),
            final(self)@.fonts@ == old(self)@.fonts@.push(
                crate::font::parsed_font(font_data@)->0,
            ),
            r.0 == old(self)@.fonts@.len(),
            old(self)@.coherent() ==> final(self)@.coherent(),
    {
        match read_font(font_data) {
            Some(font) => self.add_font(font),
            None => vstd::pervasive::unreached(),
        }
    }

    /// Adds an additional font to the one(s) initially added on build, if the data is that of a
    /// font; else returns nothing and leaves the brush as it is.
    pub fn try_add_font_bytes<'a: 'font>(&mut self, font_data: &'a [u8]) -> (r: Option<FontId>)
        requires
            old(self).wf(),
        ensures
            final(self).wf(),
            r is Some <==> crate::font::is_font_data(font_data@),
            r is None ==> final(self)@ == old(self)@,
            r matches Some(id) ==> {
                &&& id.0 == old(self)@.fonts@.len()
                &&& final(self)@ == (BrushState { fonts: final(self)@.fonts, ..old(self)@ })
                &&& final(self)@.fonts@ == old(self)@.fonts@.push(
                    crate::font::parsed_font(font_data@)->0,
                )
            },
            old(self)@.coherent() ==> final(self)@.coherent(),
    {
        match read_font(font_data) {
            Some(_) => Some(self.add_font_bytes(font_data)),
            None => None,
        }
    }

    /// Retains the section in the cache as if it had been used in the last draw-frame.
    ///
    /// Should not generally be necessary, see
    /// [caching behaviour](GlyphBrush#caching-behaviour).
    pub fn keep_cached_custom_layout<L, G: GlyphPositioner>(
        &mut self,
        section: &VariedSection<'_, L>,
        custom_layout: &G,
    )
        requires
            old(self).wf(),
            old(self)@.cache_positioning ==> section.fonts_known(old(self)@.fonts@.len()),
        ensures
            final(self).wf(),
            final(self)@ == old(self)@.section_kept(*section, *custom_layout),
            old(self)@.coherent() ==> final(self)@.coherent(),
    {
        if !self.cache_glyph_positioning {
            return;
        }
        let section_hash = SectionHashDetail::new(&self.section_hasher, section, custom_layout);
        self.keep_in_cache.insert(section_hash.full);
        assert(self@ =~= old(self)@.section_kept(*section, *custom_layout));
    }

    /// Retains the section in the cache as if it had been used in the last draw-frame.
    ///
    /// Should not generally be necessary, see
    /// [caching behaviour](GlyphBrush#caching-behaviour).
    pub fn keep_cached<L: GlyphPositioner>(&mut self, section: &VariedSection<'_, L>)
        requires
            old(self).wf(),
            old(self)@.cache_positioning ==> section.fonts_known(old(self)@.fonts@.len()),
        ensures
            final(self).wf(),
            final(self)@ == old(self)@.section_kept(*section, section.layout),
            old(self)@.coherent() ==> final(self)@.coherent(),
    {
        self.keep_cached_custom_layout(section, &section.layout)
    }

    /// Read the pixel bounds of a laid out section of text from the cache.
    ///
    /// Note that this is different from the `bounds` of a [`VariedSection`] in that the bounds
    /// of a varied section is a maximum, while these `pixel_bounds` are the actually observed
    /// bounds after the section has been processed.
    pub fn section_pixel_bounds<L: GlyphPositioner>(&self, section: &VariedSection<'_, L>) -> (r:
        Option<Rectangle<i32>>)
        requires
            self.wf(),
        ensures
            self@.covered_by(
                SectionHashDetail::of(self@.hasher, *section, section.layout).full,
                r,
            ),
    {
        let section_hash = SectionHashDetail::new(
            &self.section_hasher,
            section,
            &section.layout,
        );
        match self.calculate_glyph_cache.get(&section_hash.full) {
            Some(glyphed) => glyphed.positioned.pixel_bounds(),
            None => None,
        }
    }
}

impl<'font, V, H> GlyphBrush<'font, V, H> {
    /// A brush that has not been used.
    pub(crate) fn start(
        fonts: Vec<Font<'font>>,
        texture_cache: Cache<'font>,
        cache_glyph_positioning: bool,
        cache_glyph_drawing: bool,
        section_hasher: H,
    ) -> (r: Self)
        requires
            crate::texture::texture_queue(texture_cache).len() == 0,
            crate::texture::texture_rects(texture_cache).dom().is_empty(),
            crate::texture::texture_attributes(texture_cache).pad_glyphs,
        ensures
            r.wf(),
            r@.unused(),
            r@.fonts == fonts,
            r@.texture == texture_cache,
            r@.cache_positioning == cache_glyph_positioning,
            r@.cache_drawing == cache_glyph_drawing,
            r@.hasher == section_hasher,
    {
        GlyphBrush {
            fonts,
            texture_cache,
            last_draw: LastDrawInfo { text_state: 0 },
            calculate_glyph_cache: new_map(),
            last_frame_seq_id_sections: Vec::new(),
            frame_seq_id_sections: Vec::new(),
            section_buffer: Vec::new(),
            keep_in_cache: new_set(),
            cache_glyph_positioning,
            cache_glyph_drawing,
            section_hasher,
            last_pre_positioned: Vec::new(),
            pre_positioned: Vec::new(),
        }
    }
}

impl<'font, V, H: SectionHasher + Clone> GlyphBrush<'font, V, H> {
    /// Return a [`GlyphBrushBuilder`] prefilled with the properties of this `GlyphBrush`.
    pub fn to_builder(&self) -> (r: GlyphBrushBuilder<'font, H>)
        requires
            self.wf(),
        ensures
            r@.fonts@ == self@.fonts@,
            r@.cache_positioning == self@.cache_positioning,
            r@.cache_drawing == self@.cache_drawing,
            cloned(self@.hasher, r@.hasher),
            r@.attributes == crate::texture::texture_attributes(self@.texture),
            r@.buildable(),
    {
        let fonts = self.fonts.clone();
        assert(fonts@ =~= self.fonts@);
        let builder = GlyphBrushBuilder::using_fonts(fonts).cache_glyph_positioning(
            self.cache_glyph_positioning,
        ).cache_glyph_drawing(self.cache_glyph_drawing).section_hasher(
            self.section_hasher.clone(),
        );
        builder.with_cache_builder(cache_to_builder(&self.texture_cache))
    }
}

/// The side of a texture that is suggested where one is too small.
fn larger(side: u32) -> (r: u32)
    ensures
        r == crate::state::larger_side(side),
{
    if side == 0 {
        1
    } else if side > u32::MAX / 2 {
        u32::MAX
    } else {
        side * 2
    }
}

/// Queues the glyphs of a section to be drawn into the texture.
fn queue_section<'font>(cache: &mut Cache<'font>, glyphs: &Vec<SectionGlyph<'font>>)
    requires
        crate::texture::queue_drawable(crate::texture::texture_queue(*old(cache))),
        forall|i: int|
            0 <= i < glyphs@.len() ==> crate::texture::glyph_in_reach(
                (#[trigger] glyphs@[i]).glyph,
            ),
        crate::section::glyphs_drawable(glyphs@),
    ensures
        crate::texture::queue_drawable(crate::texture::texture_queue(*final(cache))),
        crate::texture::texture_queue(*final(cache)) == crate::state::queue_glyphs(
            crate::texture::texture_queue(*old(cache)),
            glyphs@,
        ),
        crate::texture::texture_rects(*final(cache)) == crate::texture::texture_rects(*old(cache)),
        crate::texture::texture_attributes(*final(cache)) == crate::texture::texture_attributes(
            *old(cache),
        ),
{
    let mut i: usize = 0;
    while i < glyphs.len()
        invariant
            i <= glyphs@.len(),
            forall|j: int|
                0 <= j < glyphs@.len() ==> crate::texture::glyph_in_reach(
                    (#[trigger] glyphs@[j]).glyph,
                ),
            crate::section::glyphs_drawable(glyphs@),
            crate::texture::queue_drawable(crate::texture::texture_queue(*cache)),
            crate::texture::texture_queue(*cache) == crate::state::queue_glyphs(
                crate::texture::texture_queue(*old(cache)),
                glyphs@.take(i as int),
            ),
            crate::texture::texture_rects(*cache) == crate::texture::texture_rects(*old(cache)),
            crate::texture::texture_attributes(*cache) == crate::texture::texture_attributes(
                *old(cache),
            ),
        decreases glyphs@.len() - i,
    {
        queue_glyph(cache, glyphs[i].font_id.0, glyphs[i].glyph.clone());
        assert(glyphs@.take(i + 1).drop_last() =~= glyphs@.take(i as int));
        i = i + 1;
    }
    assert(glyphs@.take(i as int) =~= glyphs@);
}

} // verus!
