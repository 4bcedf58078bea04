//! How sections are laid out and kept from frame to frame, and what each call leaves alone.
use crate::brush::{BrushAction, BrushError};
use crate::builder::BuilderState;
use crate::float32::Float32;
use crate::geometry::Rectangle;
use crate::glyph::{SectionGlyph, SectionView};
use crate::glyphed::GlyphVertex;
use crate::hash_laws::{list_writes, same_alphas, same_colors, same_runs};
use crate::hashing::{SectionHash, SectionHashDetail, SectionHasher};
use crate::number_laws::equal;
use crate::section::{GlyphChange, GlyphPositioner, SectionGeometry, VariedSection};
use crate::state::BrushState;
use crate::texture::{glyph_box, texture_attributes, texture_queue, texture_rects};
use rusttype::PositionedGlyph;
use std::borrow::Cow;
use vstd::prelude::*;

verus! {

/// Whether a box of pixels meets the whole pixels around bounds.
pub open spec fn box_meets(b: Rectangle<i32>, bounds: Rectangle<Float32>) -> bool {
    &&& b.max.x >= bounds.min.x.floor_spec()
    &&& b.max.y >= bounds.min.y.floor_spec()
    &&& b.min.x <= bounds.max.x.ceil_spec()
    &&& b.min.y <= bounds.max.y.ceil_spec()
}

/// Whether `r` is the least rectangle around all boxes, each cut at the whole pixels around the
/// bounds, and nothing if none meets them.
pub open spec fn around_all(
    r: Option<Rectangle<i32>>,
    boxes: Seq<Option<Rectangle<i32>>>,
    bounds: Rectangle<Float32>,
) -> bool {
    let (left, top) = (bounds.min.x.floor_spec(), bounds.min.y.floor_spec());
    let (right, bottom) = (bounds.max.x.ceil_spec(), bounds.max.y.ceil_spec());
    &&& forall|i: int|
        0 <= i < boxes.len() ==> (#[trigger] boxes[i] matches Some(b) ==> (box_meets(b, bounds)
            ==> (r matches Some(whole) && {
            &&& whole.min.x <= b.min.x || whole.min.x <= left
            &&& whole.min.y <= b.min.y || whole.min.y <= top
            &&& whole.max.x >= b.max.x || whole.max.x >= right
            &&& whole.max.y >= b.max.y || whole.max.y >= bottom
        })))
    &&& r matches Some(whole) ==> {
        &&& exists|i: int|
            0 <= i < boxes.len() && (#[trigger] boxes[i] matches Some(b) && box_meets(b, bounds)
                && whole.min.x >= b.min.x && whole.min.x >= left)
        &&& exists|i: int|
            0 <= i < boxes.len() && (#[trigger] boxes[i] matches Some(b) && box_meets(b, bounds)
                && whole.min.y >= b.min.y && whole.min.y >= top)
        &&& exists|i: int|
            0 <= i < boxes.len() && (#[trigger] boxes[i] matches Some(b) && box_meets(b, bounds)
                && whole.max.x <= b.max.x && whole.max.x <= right)
        &&& exists|i: int|
            0 <= i < boxes.len() && (#[trigger] boxes[i] matches Some(b) && box_meets(b, bounds)
                && whole.max.y <= b.max.y && whole.max.y <= bottom)
    }
}

/// The pixels that boxes cover within bounds hold every box, cut at the whole pixels around the
/// bounds, and reach no farther on any side than one of them. There are none just where no box
/// meets the bounds.
pub proof fn covered_pixels_hold_every_box(
    r: Option<Rectangle<i32>>,
    boxes: Seq<Option<Rectangle<i32>>>,
    bounds: Rectangle<Float32>,
)
    requires
        crate::glyph::covers(r, boxes, crate::geometry::pixels_around(bounds)),
    ensures
        around_all(r, boxes, bounds),
{
    let limits = crate::geometry::pixels_around(bounds);
    assert forall|i: int| 0 <= i < boxes.len() implies (#[trigger] boxes[i] matches Some(b)
        ==> box_meets(b, bounds) == (crate::glyph::part_within(boxes, limits, i) is Some)) by {
    }
    if let Some(whole) = r {
        let a = choose|i: int|
            #![trigger crate::glyph::part_within(boxes, limits, i)]
            0 <= i < boxes.len() && (crate::glyph::part_within(boxes, limits, i) matches Some(p)
                && whole.min.x == p.min.x);
        let b = choose|i: int|
            #![trigger crate::glyph::part_within(boxes, limits, i)]
            0 <= i < boxes.len() && (crate::glyph::part_within(boxes, limits, i) matches Some(p)
                && whole.min.y == p.min.y);
        let c = choose|i: int|
            #![trigger crate::glyph::part_within(boxes, limits, i)]
            0 <= i < boxes.len() && (crate::glyph::part_within(boxes, limits, i) matches Some(p)
                && whole.max.x == p.max.x);
        let d = choose|i: int|
            #![trigger crate::glyph::part_within(boxes, limits, i)]
            0 <= i < boxes.len() && (crate::glyph::part_within(boxes, limits, i) matches Some(p)
                && whole.max.y == p.max.y);
        assert(boxes[a] is Some && boxes[b] is Some && boxes[c] is Some && boxes[d] is Some);
    }
}

/// The pixels that a section covers are those around the boxes of all its glyphs, whichever of
/// them have none.
pub proof fn pixel_bounds_hold_every_glyph(
    r: Option<Rectangle<i32>>,
    section: SectionView<'_>,
    boxes: Seq<Option<Rectangle<i32>>>,
)
    requires
        crate::glyph::covers(
            r,
            crate::glyph::glyph_boxes(section.glyphs),
            crate::geometry::pixels_around(section.bounds),
        ),
        boxes.len() == section.glyphs.len(),
        forall|i: int|
            0 <= i < boxes.len() ==> #[trigger] boxes[i] == glyph_box(section.glyphs[i].glyph),
    ensures
        around_all(r, boxes, section.bounds),
{
    assert(boxes =~= crate::glyph::glyph_boxes(section.glyphs));
    covered_pixels_hold_every_box(r, boxes, section.bounds);
}

/// The pixels that are told for a section are those around the boxes of all glyphs that it is
/// positioned with, and none where it is not positioned.
pub proof fn told_pixels_hold_every_glyph<'font, V, H>(
    state: BrushState<'font, V, H>,
    hash: SectionHash,
    r: Option<Rectangle<i32>>,
    boxes: Seq<Option<Rectangle<i32>>>,
)
    requires
        state.covered_by(hash, r),
        boxes.len() == state.sections[hash].positioned.glyphs.len(),
        forall|i: int|
            0 <= i < boxes.len() ==> #[trigger] boxes[i] == glyph_box(
                state.sections[hash].positioned.glyphs[i].glyph,
            ),
    ensures
        !state.sections.contains_key(hash) ==> r is None,
        state.sections.contains_key(hash) ==> around_all(
            r,
            boxes,
            state.sections[hash].positioned.bounds,
        ),
{
    if state.sections.contains_key(hash) {
        pixel_bounds_hold_every_glyph(r, state.sections[hash].positioned, boxes);
    }
}

/// The glyphs that are told for a section are all those that it is positioned with, in order.
pub proof fn told_glyphs_are_those_positioned<'font, V, H>(
    state: BrushState<'font, V, H>,
    hash: SectionHash,
    r: Seq<&PositionedGlyph<'font>>,
)
    requires
        state.glyphs_are(hash, r),
    ensures
        r.len() == state.sections[hash].positioned.glyphs.len(),
        forall|i: int|
            0 <= i < r.len() ==> *(#[trigger] r[i])
                == state.sections[hash].positioned.glyphs[i].glyph,
{
}

/// Whether `glyphs` is what a layout can give for a section from nothing.
pub open spec fn laid_anew<'font, V, H, L, G: GlyphPositioner>(
    state: BrushState<'font, V, H>,
    section: VariedSection<'_, L>,
    layout: G,
    glyphs: Seq<SectionGlyph<'font>>,
) -> bool {
    let geometry = SectionGeometry {
        screen_position: section.screen_position,
        bounds: section.bounds,
    };
    exists|list: Vec<SectionGlyph<'font>>|
        list@ == glyphs && #[trigger] call_ensures(
            G::calculate_glyphs,
            (&layout, &state.fonts, &geometry, &section.text),
            list,
        )
}

/// Whether `glyphs` is what a layout can give for a section from glyphs that are known and a
/// change.
pub open spec fn laid_from<'font, V, H, L, G: GlyphPositioner>(
    state: BrushState<'font, V, H>,
    section: VariedSection<'_, L>,
    layout: G,
    known: Seq<SectionGlyph<'font>>,
    change: GlyphChange,
    glyphs: Seq<SectionGlyph<'font>>,
) -> bool {
    let geometry = SectionGeometry {
        screen_position: section.screen_position,
        bounds: section.bounds,
    };
    exists|previous: Cow<'_, Vec<SectionGlyph<'font>>>, list: Vec<SectionGlyph<'font>>|
        previous@ == known && list@ == glyphs && #[trigger] call_ensures(
            G::recalculate_glyphs,
            (&layout, previous, change, &state.fonts, &geometry, &section.text),
            list,
        )
}

/// A section that is not known yet is laid out when it is used or queued, with its own depth,
/// its layout's bounds for its geometry, and no vertices. Its counterpart in the last frame gives
/// its glyphs for that, if it is still positioned and hashes tell that the two share all but the
/// geometry, and then the layout is given the counterpart's geometry; or that at equal places
/// they share all but colours, or all but colours and alphas. Else the glyphs are laid out from
/// nothing.
pub proof fn new_sections_are_laid_out<'font, V, H: SectionHasher, L, G: GlyphPositioner>(
    state: BrushState<'font, V, H>,
    after: BrushState<'font, V, H>,
    section: VariedSection<'_, L>,
    layout: G,
)
    requires
        state.section_used(after, section, layout) || state.section_queued(after, section, layout),
        !(state.cache_positioning && state.sections.contains_key(
            SectionHashDetail::of(state.hasher, section, layout).full,
        )),
    ensures
        ({
            let own = SectionHashDetail::of(state.hasher, section, layout);
            let other = state.last_details[state.details.len() as int];
            let laid = after.sections[own.full];
            let known = state.sections[other.full].positioned.glyphs;
            let geometry = SectionGeometry {
                screen_position: section.screen_position,
                bounds: section.bounds,
            };
            let usable = state.cache_positioning && state.details.len() < state.last_details.len()
                && state.sections.contains_key(other.full);
            let placed = equal(section.screen_position.x, other.geometry.screen_position.x)
                && equal(section.screen_position.y, other.geometry.screen_position.y) && equal(
                section.bounds.x,
                other.geometry.bounds.x,
            ) && equal(section.bounds.y, other.geometry.bounds.y);
            &&& after.sections.contains_key(own.full)
            &&& laid.vertices.len() == 0
            &&& laid.positioned.z == section.z
            &&& call_ensures(G::bounds_rect, (&layout, &geometry), laid.positioned.bounds)
            &&& if usable && own.text == other.text {
                laid_from(
                    state,
                    section,
                    layout,
                    known,
                    GlyphChange::Geometry(other.geometry),
                    laid.positioned.glyphs,
                )
            } else if usable && placed && own.text_no_color == other.text_no_color {
                laid_from(
                    state,
                    section,
                    layout,
                    known,
                    GlyphChange::Color,
                    laid.positioned.glyphs,
                )
            } else if usable && placed && own.text_no_color_alpha == other.text_no_color_alpha {
                laid_from(
                    state,
                    section,
                    layout,
                    known,
                    GlyphChange::Alpha,
                    laid.positioned.glyphs,
                )
            } else {
                laid_anew(state, section, layout, laid.positioned.glyphs)
            }
        }),
{
    let own = SectionHashDetail::of(state.hasher, section, layout);
    let other = state.last_details[state.details.len() as int];
    let (g, h) = (section.geometry_spec(), other.geometry);
    crate::number_laws::patterns_compare_as_numbers(g.screen_position.x, h.screen_position.x);
    crate::number_laws::patterns_compare_as_numbers(g.screen_position.y, h.screen_position.y);
    crate::number_laws::patterns_compare_as_numbers(g.bounds.x, h.bounds.x);
    crate::number_laws::patterns_compare_as_numbers(g.bounds.y, h.bounds.y);
    let positioned = after.sections[own.full].positioned;
    let laid = choose|positioned: SectionView<'font>|
        {
            &&& #[trigger] state.laid_out(own, section, layout, positioned)
            &&& after.sections == state.sections_left(own).insert(
                own.full,
                crate::glyphed::GlyphedView::<V>::fresh(positioned),
            )
        };
    assert(laid == positioned);
    match state.reusable(own) {
        Some((hash, change)) => {
            let list = choose|glyphs: Vec<SectionGlyph<'font>>|
                glyphs@ == positioned.glyphs && #[trigger] crate::state::recalculated(
                    layout,
                    state.sections[hash].positioned.glyphs,
                    change,
                    state.fonts,
                    g,
                    section.text,
                    glyphs,
                );
            let known = state.sections[hash].positioned.glyphs;
            let previous = choose|previous: Cow<'_, Vec<SectionGlyph<'font>>>|
                previous@ == known && #[trigger] call_ensures(
                    G::recalculate_glyphs,
                    (&layout, previous, change, &state.fonts, &g, &section.text),
                    list,
                );
            assert(call_ensures(
                G::recalculate_glyphs,
                (&layout, previous, change, &state.fonts, &g, &section.text),
                list,
            ));
            assert(laid_from(state, section, layout, known, change, positioned.glyphs));
        },
        None => {
            let list = choose|glyphs: Vec<SectionGlyph<'font>>|
                glyphs@ == positioned.glyphs && #[trigger] crate::state::calculated(
                    layout,
                    state.fonts,
                    g,
                    section.text,
                    glyphs,
                );
            assert(call_ensures(
                G::calculate_glyphs,
                (&layout, &state.fonts, &g, &section.text),
                list,
            ));
        },
    }
}

/// A section that has the text and the colours of the one that was met in its place in the last
/// frame, but is laid out elsewhere, is laid out by moving the glyphs of that one. The layout is
/// given the whole geometry that these were laid out with.
pub proof fn moved_sections_are_moved_from_their_last_place<'font, V: Clone, H: SectionHasher, L, M, G: GlyphPositioner, F: Fn(GlyphVertex) -> V>(
    first: BrushState<'font, V, H>,
    used: BrushState<'font, V, H>,
    earlier: VariedSection<'_, L>,
    end: BrushState<'font, V, H>,
    started: BrushState<'font, V, H>,
    outcome: Result<BrushAction<V>, BrushError>,
    to_vertex: F,
    next: BrushState<'font, V, H>,
    after: BrushState<'font, V, H>,
    section: VariedSection<'_, M>,
    layout: G,
)
    requires
        first.section_used(used, earlier, layout) || first.section_queued(used, earlier, layout),
        end.details.len() > first.details.len(),
        end.details[first.details.len() as int] == used.details[first.details.len() as int],
        end.processed(started, outcome, to_vertex),
        outcome is Ok,
        next.last_details == started.last_details,
        next.details.len() == first.details.len(),
        next.hasher == first.hasher,
        next.cache_positioning,
        next.section_used(after, section, layout) || next.section_queued(after, section, layout),
        next.sections.contains_key(SectionHashDetail::of(next.hasher, earlier, layout).full),
        !next.sections.contains_key(SectionHashDetail::of(next.hasher, section, layout).full),
        same_runs(section.text@, earlier.text@),
        same_alphas(section.text@, earlier.text@),
        same_colors(section.text@, earlier.text@),
    ensures
        laid_from(
            next,
            section,
            layout,
            next.sections[SectionHashDetail::of(
                next.hasher,
                earlier,
                layout,
            ).full].positioned.glyphs,
            GlyphChange::Geometry(
                SectionGeometry {
                    screen_position: earlier.screen_position,
                    bounds: earlier.bounds,
                },
            ),
            after.sections[SectionHashDetail::of(
                next.hasher,
                section,
                layout,
            ).full].positioned.glyphs,
        ),
{
    new_sections_are_laid_out(next, after, section, layout);
    crate::hash_laws::hashes_tell_sections_apart(next.hasher, section, earlier, layout, layout);
    crate::hash_laws::hashes_tell_sections_apart(next.hasher, earlier, section, layout, layout);
    if let Ok(BrushAction::Draw(vertices)) = outcome {
        let _ = crate::laws::lemma_drawn(end, started, vertices@, to_vertex);
    }
    let other = next.last_details[next.details.len() as int];
    assert(other == SectionHashDetail::of(next.hasher, earlier, layout));
}

/// A section at the place of the one that was met before it in the last frame, with the same text
/// but other colours, is laid out from the glyphs of that one: they are recoloured if the alphas
/// are the same, and given other alphas too if not. Sections whose hashes do not tell that apart
/// are left out.
pub proof fn recoloured_sections_keep_their_glyphs<'font, V: Clone, H: SectionHasher, L, M, G: GlyphPositioner, F: Fn(GlyphVertex) -> V>(
    first: BrushState<'font, V, H>,
    used: BrushState<'font, V, H>,
    earlier: VariedSection<'_, L>,
    end: BrushState<'font, V, H>,
    started: BrushState<'font, V, H>,
    outcome: Result<BrushAction<V>, BrushError>,
    to_vertex: F,
    next: BrushState<'font, V, H>,
    after: BrushState<'font, V, H>,
    section: VariedSection<'_, M>,
    layout: G,
)
    requires
        first.section_used(used, earlier, layout) || first.section_queued(used, earlier, layout),
        end.details.len() > first.details.len(),
        end.details[first.details.len() as int] == used.details[first.details.len() as int],
        end.processed(started, outcome, to_vertex),
        outcome is Ok,
        next.last_details == started.last_details,
        next.details.len() == first.details.len(),
        next.hasher == first.hasher,
        next.cache_positioning,
        next.section_used(after, section, layout) || next.section_queued(after, section, layout),
        next.sections.contains_key(SectionHashDetail::of(next.hasher, earlier, layout).full),
        !next.sections.contains_key(SectionHashDetail::of(next.hasher, section, layout).full),
        same_runs(section.text@, earlier.text@),
        crate::hash_laws::placed_alike(section, earlier),
        SectionHashDetail::of(next.hasher, section, layout).text != SectionHashDetail::of(
            next.hasher,
            earlier,
            layout,
        ).text,
    ensures
        ({
            let own = SectionHashDetail::of(next.hasher, section, layout);
            let other = SectionHashDetail::of(next.hasher, earlier, layout);
            let known = next.sections[other.full].positioned.glyphs;
            let glyphs = after.sections[own.full].positioned.glyphs;
            &&& same_alphas(section.text@, earlier.text@) ==> laid_from(
                next,
                section,
                layout,
                known,
                GlyphChange::Color,
                glyphs,
            )
            &&& own.text_no_color != other.text_no_color ==> laid_from(
                next,
                section,
                layout,
                known,
                GlyphChange::Alpha,
                glyphs,
            )
        }),
{
    new_sections_are_laid_out(next, after, section, layout);
    crate::hash_laws::hashes_tell_sections_apart(next.hasher, section, earlier, layout, layout);
    crate::hash_laws::hashes_tell_sections_apart(next.hasher, earlier, section, layout, layout);
    if let Ok(BrushAction::Draw(vertices)) = outcome {
        let _ = crate::laws::lemma_drawn(end, started, vertices@, to_vertex);
    }
    let other = next.last_details[next.details.len() as int];
    assert(other == SectionHashDetail::of(next.hasher, earlier, layout));
}

/// Using a section adds it to those that are met and used, and queueing it to those that are
/// drawn too. The brush forgets no section for it but the counterpart in the last frame, just
/// where that gives its glyphs and is not used itself. Nothing else changes.
pub proof fn using_a_section_leaves_the_rest<'font, V, H: SectionHasher, L, G: GlyphPositioner>(
    state: BrushState<'font, V, H>,
    after: BrushState<'font, V, H>,
    section: VariedSection<'_, L>,
    layout: G,
    queued: bool,
)
    requires
        if queued {
            state.section_queued(after, section, layout)
        } else {
            state.section_used(after, section, layout)
        },
    ensures
        ({
            let own = SectionHashDetail::of(state.hasher, section, layout);
            let other = state.last_details[state.details.len() as int];
            let known = state.cache_positioning && state.sections.contains_key(own.full);
            let placed = equal(section.screen_position.x, other.geometry.screen_position.x)
                && equal(section.screen_position.y, other.geometry.screen_position.y) && equal(
                section.bounds.x,
                other.geometry.bounds.x,
            ) && equal(section.bounds.y, other.geometry.bounds.y);
            let moved = !known && state.cache_positioning && state.details.len()
                < state.last_details.len() && (own.text == other.text || (placed && (
            own.text_no_color == other.text_no_color || own.text_no_color_alpha
                == other.text_no_color_alpha)));
            &&& after.fonts == state.fonts
            &&& after.texture == state.texture
            &&& after.last_draw == state.last_draw
            &&& after.last_details == state.last_details
            &&& after.cache_positioning == state.cache_positioning
            &&& after.cache_drawing == state.cache_drawing
            &&& after.hasher == state.hasher
            &&& after.last_pre == state.last_pre
            &&& after.pre == state.pre
            &&& after.details.len() == state.details.len() + 1
            &&& after.details.last() == own
            &&& forall|i: int|
                0 <= i < state.details.len() ==> #[trigger] after.details[i] == state.details[i]
            &&& after.buffer.len() == state.buffer.len() + (if queued {
                1int
            } else {
                0
            })
            &&& queued ==> after.buffer.last() == own.full
            &&& forall|i: int|
                0 <= i < state.buffer.len() ==> #[trigger] after.buffer[i] == state.buffer[i]
            &&& forall|h: SectionHash| #[trigger]
                after.keep.contains(h) <==> state.keep.contains(h) || h == own.full
            &&& after.sections.contains_key(own.full)
            &&& forall|h: SectionHash|
                h != own.full && #[trigger] after.sections.contains_key(h)
                    ==> state.sections.contains_key(h) && after.sections[h] == state.sections[h]
            &&& forall|h: SectionHash|
                h != own.full && #[trigger] state.sections.contains_key(h)
                    ==> (after.sections.contains_key(h) <==> !(moved && h == other.full
                    && !state.keep.contains(h)))
            &&& known ==> after.sections[own.full] == state.sections[own.full]
        }),
{
    let other = state.last_details[state.details.len() as int];
    let (g, h) = (section.geometry_spec(), other.geometry);
    crate::number_laws::patterns_compare_as_numbers(g.screen_position.x, h.screen_position.x);
    crate::number_laws::patterns_compare_as_numbers(g.screen_position.y, h.screen_position.y);
    crate::number_laws::patterns_compare_as_numbers(g.bounds.x, h.bounds.x);
    crate::number_laws::patterns_compare_as_numbers(g.bounds.y, h.bounds.y);
}

/// What a frame leaves for the next when it is processed: the sections met in it are those of the
/// last frame then, and so are those that came positioned; nothing is queued or used yet; and the
/// brush knows just the sections that were used, if it caches them, positioned as they were.
/// What it was set up with stays. A frame that is redrawn leaves the texture and all vertices as
/// they are.
pub proof fn processed_frames_start_the_next<'font, V: Clone, H: SectionHasher, F: Fn(
    GlyphVertex,
) -> V>(
    state: BrushState<'font, V, H>,
    after: BrushState<'font, V, H>,
    outcome: Result<BrushAction<V>, BrushError>,
    to_vertex: F,
)
    requires
        state.processed(after, outcome, to_vertex),
        outcome is Ok,
    ensures
        after.fonts == state.fonts,
        after.hasher == state.hasher,
        after.cache_positioning == state.cache_positioning,
        after.cache_drawing == state.cache_drawing,
        texture_attributes(after.texture) == texture_attributes(state.texture),
        after.last_draw == state.hasher.digest(list_writes(state.buffer)) || !(
        outcome matches Ok(BrushAction::Draw(_))),
        after.last_details == state.details,
        after.details.len() == 0,
        after.last_pre == state.pre,
        after.pre.len() == 0,
        after.buffer.len() == 0,
        forall|h: SectionHash| !#[trigger] after.keep.contains(h),
        forall|h: SectionHash| #[trigger]
            after.sections.contains_key(h) <==> state.cache_positioning && state.keep.contains(h)
                && state.sections.contains_key(h),
        forall|h: SectionHash| #[trigger]
            after.sections.contains_key(h) ==> after.sections[h].positioned
                == state.sections[h].positioned,
        (outcome matches Ok(BrushAction::ReDraw)) ==> after.texture == state.texture
            && after.last_draw == state.last_draw && forall|h: SectionHash| #[trigger]
            after.sections.contains_key(h) ==> after.sections[h] == state.sections[h],
{
    if let Ok(BrushAction::Draw(vertices)) = outcome {
        let (cached, reordered, sections) = crate::laws::lemma_drawn(
            state,
            after,
            vertices@,
            to_vertex,
        );
        let before = cached.sections_usable(reordered);
        assert forall|h: SectionHash| #[trigger] sections.contains_key(h) <==> state.sections.contains_key(
            h,
        ) by {
            assert(before.dom().contains(h) == state.sections.dom().contains(h));
            assert(sections.dom().contains(h) == before.dom().contains(h));
        }
        assert forall|h: SectionHash| #[trigger]
            after.sections.contains_key(h) implies after.sections[h].positioned
            == state.sections[h].positioned by {
            assert(sections.contains_key(h));
        }
    }
}

/// A vertex that a brush keeps for a section was made from what the section notes of it: by
/// `to_vertex` where the frame made it, and else it is the one that was there before.
pub proof fn kept_vertices_stay_as_made<'font, V: Clone, H: SectionHasher, F: Fn(
    GlyphVertex,
) -> V>(
    state: BrushState<'font, V, H>,
    after: BrushState<'font, V, H>,
    outcome: Result<BrushAction<V>, BrushError>,
    to_vertex: F,
    h: SectionHash,
    m: int,
)
    requires
        state.processed(after, outcome, to_vertex),
        outcome is Ok,
        after.sections.contains_key(h),
        0 <= m < after.sections[h].vertices.len(),
    ensures
        ({
            let (old_section, new_section) = (state.sections[h], after.sections[h]);
            ||| call_ensures(to_vertex, (new_section.drawn[m],), new_section.vertices[m])
            ||| m < old_section.vertices.len() && new_section.vertices[m]
                == old_section.vertices[m] && new_section.drawn[m] == old_section.drawn[m]
        }),
{
    if let Ok(BrushAction::Draw(vertices)) = outcome {
        let (cached, reordered, sections) = crate::laws::lemma_drawn(
            state,
            after,
            vertices@,
            to_vertex,
        );
        let before = cached.sections_usable(reordered);
        assert(sections.contains_key(h));
        assert(before.dom().contains(h));
        if state.buffer.contains(h) {
            assert(sections[h].ensured_from(before[h], cached.rects(), to_vertex));
        }
    }
}

/// A frame that does not fit leaves all that was queued, and a texture of the size that it had.
/// The size that is suggested is twice as long on each side, as far as it can be measured.
pub proof fn refused_frames_stay_queued<'font, V: Clone, H: SectionHasher, F: Fn(GlyphVertex) -> V>(
    state: BrushState<'font, V, H>,
    after: BrushState<'font, V, H>,
    suggested: (u32, u32),
    to_vertex: F,
)
    requires
        state.processed(after, Err(BrushError::TextureTooSmall { suggested }), to_vertex),
    ensures
        after == (BrushState { texture: after.texture, ..state }),
        texture_attributes(after.texture) == texture_attributes(state.texture),
        ({
            let size = texture_attributes(state.texture);
            &&& 1 <= size.width <= 0x7fff_ffff ==> suggested.0 == 2 * size.width
            &&& 1 <= size.height <= 0x7fff_ffff ==> suggested.1 == 2 * size.height
            &&& size.width == 0 ==> suggested.0 == 1
            &&& size.height == 0 ==> suggested.1 == 1
            &&& size.width > 0x7fff_ffff ==> suggested.0 == u32::MAX
            &&& size.height > 0x7fff_ffff ==> suggested.1 == u32::MAX
        }),
{
}

/// A section that comes positioned is queued behind the others that did, as it is. Nothing else
/// changes.
pub proof fn positioned_sections_are_queued_as_they_are<'font, V, H: SectionHasher>(
    state: BrushState<'font, V, H>,
    section: SectionView<'font>,
)
    ensures
        ({
            let after = state.positioned_queued(section);
            &&& after.pre.len() == state.pre.len() + 1
            &&& after.pre.last() == section
            &&& forall|i: int| 0 <= i < state.pre.len() ==> #[trigger] after.pre[i] == state.pre[i]
            &&& state == (BrushState { pre: state.pre, ..after })
        }),
{
}

/// A section that is kept counts as used in the frame, if the brush caches sections. Nothing else
/// changes, and nothing at all if it does not.
pub proof fn kept_sections_count_as_used<'font, V, H: SectionHasher, L, G: GlyphPositioner>(
    state: BrushState<'font, V, H>,
    section: VariedSection<'_, L>,
    layout: G,
    h: SectionHash,
)
    ensures
        ({
            let after = state.section_kept(section, layout);
            let own = SectionHashDetail::of(state.hasher, section, layout).full;
            &&& after.keep.contains(h) <==> state.keep.contains(h) || (state.cache_positioning && h
                == own)
            &&& state == (BrushState { keep: state.keep, ..after })
        }),
{
}

/// A texture of another size has that size and holds nothing, and what waits for it still does.
/// No section has vertices then, and each stays as it is positioned. Other attributes of the
/// texture stay, but for whether several threads draw. Nothing counts as drawn.
pub proof fn resized_textures_are_empty<'font, V, H: SectionHasher>(
    state: BrushState<'font, V, H>,
    after: BrushState<'font, V, H>,
    width: u32,
    height: u32,
)
    requires
        state.texture_resized(after, width, height),
    ensures
        texture_attributes(after.texture).width == width,
        texture_attributes(after.texture).height == height,
        texture_attributes(after.texture).scale_tolerance == texture_attributes(
            state.texture,
        ).scale_tolerance,
        texture_attributes(after.texture).position_tolerance == texture_attributes(
            state.texture,
        ).position_tolerance,
        texture_attributes(after.texture).pad_glyphs == texture_attributes(
            state.texture,
        ).pad_glyphs,
        texture_attributes(after.texture).align_4x4 == texture_attributes(state.texture).align_4x4,
        texture_attributes(after.texture).multithread ==> texture_attributes(
            state.texture,
        ).multithread,
        texture_queue(after.texture) == texture_queue(state.texture),
        forall|x: (usize, PositionedGlyph<'font>)|
            !#[trigger] texture_rects(after.texture).contains_key(x),
        after.last_draw == 0,
        state == (BrushState {
            texture: state.texture,
            last_draw: state.last_draw,
            sections: state.sections,
            ..after
        }),
        forall|h: SectionHash| #[trigger]
            after.sections.contains_key(h) <==> state.sections.contains_key(h),
        forall|h: SectionHash| #[trigger]
            after.sections.contains_key(h) ==> after.sections[h].positioned
                == state.sections[h].positioned && after.sections[h].vertices.len() == 0,
{
    assert forall|h: SectionHash| #[trigger]
        after.sections.contains_key(h) <==> state.sections.contains_key(h) by {
        assert(after.sections.dom().contains(h) == state.sections.dom().contains(h));
    }
}

/// The size of a texture is its width and then its height.
pub proof fn texture_sizes_are_widths_and_heights<'font, V, H>(state: BrushState<'font, V, H>)
    ensures
        state.texture_size().0 == texture_attributes(state.texture).width,
        state.texture_size().1 == texture_attributes(state.texture).height,
{
}

/// A brush that was not used holds nothing: no section, nothing queued, nothing drawn, and an
/// empty texture. So its first frame is drawn wherever something is queued for it, unless that has
/// the hash that stands for nothing drawn.
pub proof fn unused_brushes_hold_nothing<'font, V, H: SectionHasher>(
    state: BrushState<'font, V, H>,
)
    requires
        state.unused(),
    ensures
        texture_queue(state.texture).len() == 0,
        forall|x: (usize, PositionedGlyph<'font>)|
            !#[trigger] texture_rects(state.texture).contains_key(x),
        state.last_draw == 0,
        forall|h: SectionHash| !#[trigger] state.sections.contains_key(h),
        forall|h: SectionHash| !#[trigger] state.keep.contains(h),
        state.last_details.len() == 0,
        state.details.len() == 0,
        state.buffer.len() == 0,
        state.last_pre.len() == 0,
        state.pre.len() == 0,
        state.coherent(),
        state.valid(),
{
}

/// A builder starts with both caches on and a texture of 256 by 256 pixels that pads its glyphs
/// and does not align them. It can be built.
pub proof fn builders_start_with_both_caches<'font, H>(builder: BuilderState<'font, H>)
    requires
        builder.initial(),
    ensures
        builder.cache_positioning,
        builder.cache_drawing,
        builder.attributes.width == 256,
        builder.attributes.height == 256,
        builder.attributes.scale_tolerance.bits == 0x3dcc_cccd,
        builder.attributes.position_tolerance.bits == 0x3dcc_cccd,
        builder.attributes.pad_glyphs,
        !builder.attributes.align_4x4,
        builder.attributes.multithread,
        builder.buildable(),
{
}

} // verus!
