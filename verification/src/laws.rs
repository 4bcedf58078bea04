//! What the calls of a brush promise together.
use crate::brush::{BrushAction, BrushError};
use crate::builder::BuilderState;
use crate::geometry::Rectangle;
use crate::glyph::SectionView;
use crate::glyphed::{GlyphVertex, GlyphedView, TextureRects};
use crate::hashing::{SectionHash, SectionHashDetail, SectionHashDiff, SectionHasher};
use crate::section::{GlyphPositioner, SectionText, VariedSection};
use crate::state::BrushState;
use vstd::prelude::*;

verus! {

/// A section that is positioned already, in this frame or in an earlier one, is not positioned
/// again when it is used or queued.
pub proof fn sections_are_positioned_once<'font, V, H: SectionHasher, L, G: GlyphPositioner>(
    state: BrushState<'font, V, H>,
    after: BrushState<'font, V, H>,
    section: VariedSection<'_, L>,
    layout: G,
)
    requires
        state.cache_positioning,
        state.sections.contains_key(SectionHashDetail::of(state.hasher, section, layout).full),
        state.section_used(after, section, layout) || state.section_queued(after, section, layout),
    ensures
        after.sections == state.sections,
{
}

/// A section that is used or queued is positioned then, and stays in use until the frame is
/// processed.
pub proof fn used_sections_are_positioned<'font, V, H: SectionHasher, L, G: GlyphPositioner>(
    state: BrushState<'font, V, H>,
    after: BrushState<'font, V, H>,
    section: VariedSection<'_, L>,
    layout: G,
)
    requires
        state.section_used(after, section, layout) || state.section_queued(after, section, layout),
    ensures
        after.sections.contains_key(SectionHashDetail::of(state.hasher, section, layout).full),
        after.keep.contains(SectionHashDetail::of(state.hasher, section, layout).full),
{
}

/// While sections are cached, using or queueing one leaves every section that is used in the
/// frame as it is positioned, and leaves it in use.
pub proof fn used_sections_stay<'font, V, H: SectionHasher, L, G: GlyphPositioner>(
    state: BrushState<'font, V, H>,
    after: BrushState<'font, V, H>,
    section: VariedSection<'_, L>,
    layout: G,
    hash: SectionHash,
)
    requires
        state.cache_positioning,
        state.section_used(after, section, layout) || state.section_queued(after, section, layout),
        state.keep.contains(hash),
        state.sections.contains_key(hash),
    ensures
        after.keep.contains(hash),
        after.sections.contains_key(hash),
        after.sections[hash] == state.sections[hash],
{
}

/// A section that is not used in a frame is forgotten when the frame is processed.
pub proof fn unused_sections_are_forgotten<'font, V: Clone, H: SectionHasher, F: Fn(
    GlyphVertex,
) -> V>(
    state: BrushState<'font, V, H>,
    after: BrushState<'font, V, H>,
    outcome: Result<BrushAction<V>, BrushError>,
    to_vertex: F,
    hash: SectionHash,
)
    requires
        state.processed(after, outcome, to_vertex),
        outcome is Ok,
        !state.keep.contains(hash),
    ensures
        !after.sections.contains_key(hash),
{
}

/// While sections are cached, one that is used in a frame is still positioned, just as it was,
/// after the frame is processed.
pub proof fn used_sections_outlive_the_frame<'font, V: Clone, H: SectionHasher, F: Fn(
    GlyphVertex,
) -> V>(
    state: BrushState<'font, V, H>,
    after: BrushState<'font, V, H>,
    outcome: Result<BrushAction<V>, BrushError>,
    to_vertex: F,
    hash: SectionHash,
)
    requires
        state.processed(after, outcome, to_vertex),
        state.cache_positioning,
        state.keep.contains(hash),
        state.sections.contains_key(hash),
    ensures
        after.sections.contains_key(hash),
        after.sections[hash].positioned == state.sections[hash].positioned,
{
    if let Ok(BrushAction::Draw(vertices)) = outcome {
        let (cached, reordered, sections) = lemma_drawn(state, after, vertices@, to_vertex);
        assert(cached.sections_usable(reordered).dom().contains(hash));
        assert(sections.contains_key(hash));
    }
}

/// What a frame was drawn from: the state once its glyphs were in the texture, whether the
/// texture was reordered for them, and the sections with their vertices.
pub(crate) proof fn lemma_drawn<'font, V: Clone, H: SectionHasher, F: Fn(GlyphVertex) -> V>(
    state: BrushState<'font, V, H>,
    after: BrushState<'font, V, H>,
    vertices: Seq<V>,
    to_vertex: F,
) -> (r: (BrushState<'font, V, H>, bool, Map<SectionHash, GlyphedView<'font, V>>))
    requires
        exists|cached: BrushState<'font, V, H>, reordered: bool| #[trigger]
            state.text_cached(cached, reordered) && cached.finished(
                after,
                reordered,
                vertices,
                to_vertex,
            ),
    ensures
        state.text_cached(r.0, r.1),
        r.0.finished(after, r.1, vertices, to_vertex),
        crate::state::vertices_ensured(
            r.0.sections_usable(r.1),
            r.2,
            r.0.buffer,
            r.0.rects(),
            to_vertex,
        ),
        crate::state::draws(vertices, r.2, r.0.buffer, r.0.pre, r.0.rects(), to_vertex),
        after == (BrushState { last_draw: r.0.text_state(), sections: r.2, ..r.0 }).after_frame(),
{
    let (cached, reordered) = choose|cached: BrushState<'font, V, H>, reordered: bool| #[trigger]
        state.text_cached(cached, reordered) && cached.finished(
            after,
            reordered,
            vertices,
            to_vertex,
        );
    let sections = choose|sections: Map<SectionHash, GlyphedView<'font, V>>|
        {
            &&& #[trigger] crate::state::vertices_ensured(
                cached.sections_usable(reordered),
                sections,
                cached.buffer,
                cached.rects(),
                to_vertex,
            )
            &&& crate::state::draws(
                vertices,
                sections,
                cached.buffer,
                cached.pre,
                cached.rects(),
                to_vertex,
            )
            &&& after == (BrushState {
                last_draw: cached.text_state(),
                sections,
                ..cached
            }).after_frame()
        };
    (cached, reordered, sections)
}

/// A positioned section that is kept outlives the frame, as if it had been used in it.
pub proof fn kept_sections_outlive_the_frame<'font, V, H: SectionHasher, L, G: GlyphPositioner>(
    state: BrushState<'font, V, H>,
    section: VariedSection<'_, L>,
    layout: G,
)
    requires
        state.cache_positioning,
        state.sections.contains_key(SectionHashDetail::of(state.hasher, section, layout).full),
    ensures
        ({
            let hash = SectionHashDetail::of(state.hasher, section, layout).full;
            let after = state.section_kept(section, layout).after_frame();
            &&& after.sections.contains_key(hash)
            &&& after.sections[hash] == state.sections[hash]
        }),
{
}

/// A frame that is processed leaves nothing queued for the next.
pub proof fn processed_frames_leave_nothing_queued<'font, V: Clone, H: SectionHasher, F: Fn(
    GlyphVertex,
) -> V>(
    state: BrushState<'font, V, H>,
    after: BrushState<'font, V, H>,
    outcome: Result<BrushAction<V>, BrushError>,
    to_vertex: F,
)
    requires
        state.processed(after, outcome, to_vertex),
        outcome is Ok,
    ensures
        after.buffer.len() == 0,
        after.pre.len() == 0,
        after.keep == Set::<SectionHash>::empty(),
{
}

/// A frame without glyphs that is drawn gives no vertices.
pub proof fn frames_without_glyphs_draw_nothing<'font, V: Clone, H: SectionHasher, F: Fn(
    GlyphVertex,
) -> V>(
    state: BrushState<'font, V, H>,
    after: BrushState<'font, V, H>,
    vertices: Vec<V>,
    to_vertex: F,
)
    requires
        state.valid(),
        state.vertices_bounded(),
        !state.any_text(),
        state.processed(after, Ok(BrushAction::Draw(vertices)), to_vertex),
    ensures
        vertices@.len() == 0,
{
    let (cached, reordered, sections) = lemma_drawn(state, after, vertices@, to_vertex);
    crate::coherence::lemma_made_are_bounded(
        cached.sections_usable(reordered),
        sections,
        cached.buffer,
        cached.rects(),
        to_vertex,
    );
    assert forall|i: int| 0 <= i < state.buffer.len() implies sections[
        #[trigger] state.buffer[i]].vertices.len() == 0 by {
        let h = state.buffer[i];
        assert(state.sections.contains_key(h));
        assert(cached.sections_usable(reordered).dom().contains(h));
        assert(sections.contains_key(h));
    }
    lemma_nothing_listed(sections, state.buffer);
    lemma_nothing_positioned(state.pre, cached.rects());
}

proof fn lemma_nothing_listed<'font, V>(
    sections: Map<SectionHash, GlyphedView<'font, V>>,
    hashes: Seq<SectionHash>,
)
    requires
        forall|i: int|
            0 <= i < hashes.len() ==> sections[#[trigger] hashes[i]].vertices.len() == 0,
    ensures
        crate::state::listed_vertices(sections, hashes).len() == 0,
    decreases hashes.len(),
{
    if hashes.len() > 0 {
        let front = hashes.drop_last();
        assert forall|i: int| 0 <= i < front.len() implies sections[
            #[trigger] front[i]].vertices.len() == 0 by {
            assert(front[i] == hashes[i]);
        }
        lemma_nothing_listed(sections, front);
        assert(hashes[hashes.len() - 1] == hashes.last());
    }
}

proof fn lemma_nothing_positioned<'font>(pre: Seq<SectionView<'font>>, rects: TextureRects<'font>)
    requires
        forall|i: int| 0 <= i < pre.len() ==> (#[trigger] pre[i]).glyphs.len() == 0,
    ensures
        crate::state::positioned_vertices(pre, rects).len() == 0,
    decreases pre.len(),
{
    if pre.len() > 0 {
        let front = pre.drop_last();
        assert forall|i: int| 0 <= i < front.len() implies (#[trigger] front[i]).glyphs.len()
            == 0 by {
            assert(front[i] == pre[i]);
        }
        lemma_nothing_positioned(front, rects);
        assert(pre[pre.len() - 1] == pre.last());
    }
}

/// Whether a section is positioned so, and its vertices are made one by one from its glyphs as
/// the texture shows them.
pub open spec fn shown_by<'font, V>(
    section: GlyphedView<'font, V>,
    positioned: SectionView<'font>,
    rects: TextureRects<'font>,
) -> bool {
    &&& section.positioned == positioned
    &&& section.drawn == crate::glyphed::vertices_for(positioned, rects)
    &&& section.vertices.len() == section.drawn.len()
}

/// What is drawn are the queued sections, in the order in which they were queued, and then the
/// sections that came positioned. The vertices of each are made from its glyphs, as they are
/// positioned and as the texture shows them after the frame, and the texture shows all of them.
pub proof fn queued_sections_are_drawn<'font, V: Clone, H: SectionHasher, F: Fn(GlyphVertex) -> V>(
    state: BrushState<'font, V, H>,
    after: BrushState<'font, V, H>,
    vertices: Vec<V>,
    to_vertex: F,
)
    requires
        state.valid(),
        state.coherent(),
        state.processed(after, Ok(BrushAction::Draw(vertices)), to_vertex),
    ensures
        state.text_held(after.rects()),
        exists|sections: Map<SectionHash, GlyphedView<'font, V>>|
            {
                &&& #[trigger] crate::state::draws(
                    vertices@,
                    sections,
                    state.buffer,
                    state.pre,
                    after.rects(),
                    to_vertex,
                )
                &&& forall|i: int|
                    0 <= i < state.buffer.len() ==> shown_by(
                        sections[#[trigger] state.buffer[i]],
                        state.sections[state.buffer[i]].positioned,
                        after.rects(),
                    )
            },
{
    let rects = after.rects();
    let (cached, reordered, sections) = lemma_drawn(state, after, vertices@, to_vertex);
    let before = cached.sections_usable(reordered);
    assert forall|i: int| 0 <= i < state.buffer.len() implies shown_by(
        sections[#[trigger] state.buffer[i]],
        state.sections[state.buffer[i]].positioned,
        rects,
    ) by {
        let h = state.buffer[i];
        assert(state.sections.contains_key(h));
        assert(before.dom().contains(h));
        assert(sections.contains_key(h));
        assert(state.buffer.contains(h));
        assert(state.sections[h].shows(rects) || reordered);
    }
}

/// Vertices that are right stay right when a frame is processed.
pub proof fn processing_keeps_vertices_right<'font, V: Clone, H: SectionHasher, F: Fn(
    GlyphVertex,
) -> V>(
    state: BrushState<'font, V, H>,
    after: BrushState<'font, V, H>,
    outcome: Result<BrushAction<V>, BrushError>,
    to_vertex: F,
)
    requires
        state.coherent(),
        state.processed(after, outcome, to_vertex),
        outcome is Ok,
    ensures
        after.coherent(),
{
    match outcome {
        Ok(BrushAction::Draw(vertices)) => {
            let (cached, reordered, _) = lemma_drawn(state, after, vertices@, to_vertex);
            crate::coherence::lemma_drawing_keeps_coherence(
                state,
                cached,
                after,
                reordered,
                vertices@,
                to_vertex,
            );
        },
        _ => {
            assert forall|h: SectionHash| #[trigger]
                after.sections.contains_key(h) implies after.sections[h].shows(after.rects()) by {
                assert(state.sections.contains_key(h));
            }
        },
    }
}

/// Where a texture holds all glyphs of a frame, every glyph used in the frame that has a box
/// gives a vertex, unless it is shown totally outside of its section's bounds.
pub proof fn no_glyph_is_missed<'font, V, H>(
    state: BrushState<'font, V, H>,
    rects: TextureRects<'font>,
    section: SectionView<'font>,
    i: int,
)
    requires
        state.text_held(rects),
        (exists|h: SectionHash|
            state.keep.contains(h) && #[trigger] state.sections.contains_key(h)
                && state.sections[h].positioned == section) || state.pre.contains(section),
        0 <= i < section.glyphs.len(),
        crate::texture::glyph_box(section.glyphs[i].glyph) is Some,
        !crate::geometry::outside_bounds(
            (rects[(section.glyphs[i].font_id.0, section.glyphs[i].glyph)]).1,
            section.bounds,
        ),
    ensures
        crate::glyphed::vertex_for(
            section.glyphs[i],
            section.bounds,
            section.z,
            rects,
        ) is Some,
{
    if state.pre.contains(section) {
        let k = choose|k: int| 0 <= k < state.pre.len() && state.pre[k] == section;
        assert(crate::state::section_held(state.pre[k], rects));
    }
    assert(crate::state::section_held(section, rects));
    assert(!crate::texture::glyph_missed(
        rects,
        section.glyphs[i].font_id.0,
        section.glyphs[i].glyph,
    ));
}

/// Queueing what was drawn last in the same order calls for no new drawing.
pub proof fn unchanged_frames_are_redrawn<'font, V: Clone, H: SectionHasher, F: Fn(
    GlyphVertex,
) -> V>(
    state: BrushState<'font, V, H>,
    after: BrushState<'font, V, H>,
    outcome: Result<BrushAction<V>, BrushError>,
    to_vertex: F,
    next: BrushState<'font, V, H>,
)
    requires
        state.processed(after, outcome, to_vertex),
        outcome is Ok,
        next.cache_drawing,
        next.hasher == after.hasher,
        next.last_draw == after.last_draw,
        next.last_pre == after.last_pre,
        next.buffer == state.buffer,
        crate::state::all_sections_equal(state.pre, next.pre),
    ensures
        !next.must_draw(),
{
}

/// What a call queues: a section, by its hash, or a section that comes positioned.
pub enum QueueCall<'font> {
    Section(SectionHash),
    Positioned(SectionView<'font>),
}

/// Whether `after` is a state that a call leaves, as far as redrawing goes.
pub open spec fn call_made<'font, V, H>(
    state: BrushState<'font, V, H>,
    after: BrushState<'font, V, H>,
    call: QueueCall<'font>,
) -> bool {
    &&& match call {
        QueueCall::Section(hash) => after.buffer == state.buffer.push(hash) && after.pre
            == state.pre,
        QueueCall::Positioned(section) => after.pre == state.pre.push(section) && after.buffer
            == state.buffer,
    }
    &&& after.hasher == state.hasher
    &&& after.cache_drawing == state.cache_drawing
    &&& after.last_draw == state.last_draw
    &&& after.last_pre == state.last_pre
}

/// Queueing a section under any layout queues its hash under that layout, and nothing else.
pub proof fn sections_are_queued_by_their_hashes<'font, V, H: SectionHasher, L, G: GlyphPositioner>(
    state: BrushState<'font, V, H>,
    after: BrushState<'font, V, H>,
    section: VariedSection<'_, L>,
    layout: G,
)
    requires
        state.section_queued(after, section, layout),
    ensures
        call_made(
            state,
            after,
            QueueCall::Section(SectionHashDetail::of(state.hasher, section, layout).full),
        ),
{
}

/// Whether the calls lead from each of the states to the next.
pub open spec fn calls_made<'font, V, H>(
    states: Seq<BrushState<'font, V, H>>,
    calls: Seq<QueueCall<'font>>,
) -> bool {
    &&& states.len() == calls.len() + 1
    &&& forall|i: int|
        0 <= i < calls.len() ==> call_made(states[i], states[i + 1], #[trigger] calls[i])
}

/// The hashes of the sections that calls queue.
pub open spec fn called_hashes(calls: Seq<QueueCall<'_>>) -> Seq<SectionHash>
    decreases calls.len(),
{
    if calls.len() == 0 {
        Seq::empty()
    } else {
        match calls.last() {
            QueueCall::Section(hash) => called_hashes(calls.drop_last()).push(hash),
            QueueCall::Positioned(_) => called_hashes(calls.drop_last()),
        }
    }
}

/// The sections that calls queue positioned.
pub open spec fn called_positioned<'font>(calls: Seq<QueueCall<'font>>) -> Seq<
    SectionView<'font>,
>
    decreases calls.len(),
{
    if calls.len() == 0 {
        Seq::empty()
    } else {
        match calls.last() {
            QueueCall::Section(_) => called_positioned(calls.drop_last()),
            QueueCall::Positioned(section) => called_positioned(calls.drop_last()).push(section),
        }
    }
}

/// Whether a section holds no NaN.
pub open spec fn numbers_only(section: SectionView<'_>) -> bool {
    &&& crate::geometry::rects_equal(section.bounds, section.bounds)
    &&& section.z.num_eq(section.z)
    &&& forall|i: int|
        0 <= i < section.glyphs.len() ==> {
            let shape = crate::glyph::shape_of((#[trigger] section.glyphs[i]).glyph);
            &&& crate::geometry::colors_equal(section.glyphs[i].color, section.glyphs[i].color)
            &&& crate::geometry::points_equal(shape.position, shape.position)
            &&& crate::geometry::points_equal(shape.scale, shape.scale)
        }
}

/// What is queued after some calls is what was queued before them, and then what they queue.
proof fn lemma_calls<'font, V, H>(
    states: Seq<BrushState<'font, V, H>>,
    calls: Seq<QueueCall<'font>>,
)
    requires
        calls_made(states, calls),
    ensures
        states.last().buffer == states[0].buffer + called_hashes(calls),
        states.last().pre == states[0].pre + called_positioned(calls),
        states.last().hasher == states[0].hasher,
        states.last().cache_drawing == states[0].cache_drawing,
        states.last().last_draw == states[0].last_draw,
        states.last().last_pre == states[0].last_pre,
    decreases calls.len(),
{
    if calls.len() > 0 {
        let (front, fewer) = (states.drop_last(), calls.drop_last());
        assert forall|i: int| 0 <= i < fewer.len() implies call_made(
            front[i],
            front[i + 1],
            #[trigger] fewer[i],
        ) by {
            assert(fewer[i] == calls[i]);
        }
        lemma_calls(front, fewer);
        let n = calls.len() - 1;
        assert(calls[n] == calls.last());
        assert(front.last() == states[n]);
        assert(call_made(states[n], states[n + 1], calls[n]));
    }
    assert(states.last().buffer =~= states[0].buffer + called_hashes(calls));
    assert(states.last().pre =~= states[0].pre + called_positioned(calls));
}

proof fn lemma_positioned_numbers<'font>(calls: Seq<QueueCall<'font>>)
    requires
        forall|i: int|
            0 <= i < calls.len() ==> (#[trigger] calls[i] matches QueueCall::Positioned(section)
                ==> numbers_only(section)),
    ensures
        crate::state::all_sections_equal(called_positioned(calls), called_positioned(calls)),
    decreases calls.len(),
{
    if calls.len() > 0 {
        let fewer = calls.drop_last();
        assert forall|i: int| 0 <= i < fewer.len() implies (
        #[trigger] fewer[i] matches QueueCall::Positioned(section) ==> numbers_only(section)) by {
            assert(fewer[i] == calls[i]);
        }
        lemma_positioned_numbers(fewer);
        assert(calls[calls.len() - 1] == calls.last());
        let list = called_positioned(calls);
        assert forall|i: int| 0 <= i < list.len() implies crate::glyph::sections_equal(
            #[trigger] list[i],
            list[i],
        ) by {
            if i < called_positioned(fewer).len() {
                assert(called_positioned(fewer)[i] == list[i]);
            }
        }
    }
}

/// A frame that is made by the same calls as the frame before it is redrawn, while drawing is
/// cached: sections under whatever layouts, and sections that came positioned, queued in the same
/// order and none else, as long as no NaN is among what came positioned.
pub proof fn repeated_frames_are_redrawn<'font, V: Clone, H: SectionHasher, F: Fn(
    GlyphVertex,
) -> V>(
    first: Seq<BrushState<'font, V, H>>,
    again: Seq<BrushState<'font, V, H>>,
    calls: Seq<QueueCall<'font>>,
    outcome: Result<BrushAction<V>, BrushError>,
    after: BrushState<'font, V, H>,
    repeated: Result<BrushAction<V>, BrushError>,
    to_vertex: F,
)
    requires
        first[0].cache_drawing,
        first[0].buffer.len() == 0,
        first[0].pre.len() == 0,
        calls_made(first, calls),
        first.last().processed(again[0], outcome, to_vertex),
        outcome is Ok,
        calls_made(again, calls),
        again.last().processed(after, repeated, to_vertex),
        forall|i: int|
            0 <= i < calls.len() ==> (#[trigger] calls[i] matches QueueCall::Positioned(section)
                ==> numbers_only(section)),
    ensures
        repeated matches Ok(BrushAction::ReDraw),
        after == again.last().after_frame(),
{
    lemma_calls(first, calls);
    lemma_calls(again, calls);
    lemma_positioned_numbers(calls);
    processed_frames_leave_nothing_queued(first.last(), again[0], outcome, to_vertex);
    assert(first.last().buffer =~= again.last().buffer);
    assert(first.last().pre =~= called_positioned(calls));
    assert(again.last().pre =~= called_positioned(calls));
    unchanged_frames_are_redrawn(first.last(), again[0], outcome, to_vertex, again.last());
}

/// Making the vertices of a section a second time changes nothing, and a section that had none
/// gets no more of them than it has glyphs.
pub proof fn vertices_are_made_once<'font, V, F: Fn(GlyphVertex) -> V>(
    start: GlyphedView<'font, V>,
    once: GlyphedView<'font, V>,
    twice: GlyphedView<'font, V>,
    rects: TextureRects<'font>,
    to_vertex: F,
)
    requires
        once.ensured_from(start, rects, to_vertex),
        twice.ensured_from(once, rects, to_vertex),
    ensures
        twice == once,
        start.vertices.len() == 0 ==> once.vertices.len() <= once.positioned.glyphs.len(),
{
    crate::coherence::lemma_ensured_twice(start, once, twice, rects, to_vertex);
    crate::coherence::lemma_vertices_are_few(start.positioned, rects);
}

/// Queueing a section, and queueing it under its own layout, can leave the same states.
pub proof fn own_layouts_are_used<'font, V, H: SectionHasher, L: GlyphPositioner>(
    state: BrushState<'font, V, H>,
    after: BrushState<'font, V, H>,
    section: VariedSection<'_, L>,
)
    ensures
        state.own_queued(after, section) <==> state.section_queued(after, section, section.layout),
{
    let one = BrushState { keep: state.keep, buffer: state.buffer, ..after };
    let other = BrushState {
        keep: state.keep,
        ..BrushState { buffer: state.buffer, ..after }
    };
    assert(one =~= other);
}

/// Whether some call on a brush, with what is given here where the call takes it, can leave
/// `after`.
pub open spec fn can_leave<'font, V: Clone, H: SectionHasher, L, G: GlyphPositioner, F: Fn(
    GlyphVertex,
) -> V>(
    state: BrushState<'font, V, H>,
    after: BrushState<'font, V, H>,
    section: VariedSection<'_, L>,
    layout: G,
    positioned: SectionView<'font>,
    outcome: Result<BrushAction<V>, BrushError>,
    to_vertex: F,
    size: (u32, u32),
) -> bool {
    ||| state.section_used(after, section, layout)
    ||| state.section_queued(after, section, layout)
    ||| after == state.section_kept(section, layout)
    ||| after == state.positioned_queued(positioned)
    ||| state.processed(after, outcome, to_vertex)
    ||| state.texture_resized(after, size.0, size.1)
    ||| after == (BrushState { fonts: after.fonts, ..state })
}

/// A brush that was not used has nothing to draw that it cannot find.
pub proof fn unused_brushes_are_valid<'font, V, H>(state: BrushState<'font, V, H>)
    requires
        state.unused(),
    ensures
        state.valid(),
{
}

/// Whatever is called, every section that is to be drawn stays positioned and in use, so that
/// it is found when the frame is processed.
pub proof fn queued_sections_are_found<'font, V: Clone, H: SectionHasher, L, G: GlyphPositioner, F: Fn(
    GlyphVertex,
) -> V>(
    state: BrushState<'font, V, H>,
    after: BrushState<'font, V, H>,
    section: VariedSection<'_, L>,
    layout: G,
    positioned: SectionView<'font>,
    outcome: Result<BrushAction<V>, BrushError>,
    to_vertex: F,
    size: (u32, u32),
)
    requires
        state.valid(),
        can_leave(state, after, section, layout, positioned, outcome, to_vertex, size),
    ensures
        after.valid(),
{
    assert forall|i: int| 0 <= i < after.buffer.len() implies after.keep.contains(
        #[trigger] after.buffer[i],
    ) && after.sections.contains_key(after.buffer[i]) by {
        if i < state.buffer.len() {
            assert(state.keep.contains(state.buffer[i]));
        }
    }
}

/// A section that is kept covers the same pixels after the frame is processed.
pub proof fn kept_sections_cover_the_same_pixels<'font, V: Clone, H: SectionHasher, L, G: GlyphPositioner, F: Fn(
    GlyphVertex,
) -> V>(
    state: BrushState<'font, V, H>,
    section: VariedSection<'_, L>,
    layout: G,
    after: BrushState<'font, V, H>,
    outcome: Result<BrushAction<V>, BrushError>,
    to_vertex: F,
    before: Option<Rectangle<i32>>,
    later: Option<Rectangle<i32>>,
)
    requires
        state.cache_positioning,
        state.sections.contains_key(SectionHashDetail::of(state.hasher, section, layout).full),
        state.section_kept(section, layout).processed(after, outcome, to_vertex),
        state.covered_by(SectionHashDetail::of(state.hasher, section, layout).full, before),
        after.covered_by(SectionHashDetail::of(state.hasher, section, layout).full, later),
    ensures
        later == before,
{
    let hash = SectionHashDetail::of(state.hasher, section, layout).full;
    let kept = state.section_kept(section, layout);
    used_sections_outlive_the_frame(kept, after, outcome, to_vertex, hash);
    let positioned = state.sections[hash].positioned;
    crate::glyph::covered_pixels_are_one(
        before,
        later,
        crate::glyph::glyph_boxes(positioned.glyphs),
        crate::geometry::pixels_around(positioned.bounds),
    );
}

/// Sections that came positioned are drawn anew where one of them changes.
pub proof fn changed_positions_are_drawn<'font, V, H: SectionHasher>(
    state: BrushState<'font, V, H>,
)
    requires
        !crate::state::all_sections_equal(state.last_pre, state.pre),
    ensures
        state.must_draw(),
{
}

/// The texture size that is suggested is larger on both sides than the size that was too small,
/// unless no larger one can be measured.
pub proof fn suggested_sizes_are_larger<'font, V: Clone, H: SectionHasher, F: Fn(
    GlyphVertex,
) -> V>(
    state: BrushState<'font, V, H>,
    after: BrushState<'font, V, H>,
    suggested: (u32, u32),
    to_vertex: F,
)
    requires
        state.processed(after, Err(BrushError::TextureTooSmall { suggested }), to_vertex),
        state.texture_size().0 < u32::MAX,
        state.texture_size().1 < u32::MAX,
    ensures
        suggested.0 > state.texture_size().0,
        suggested.1 > state.texture_size().1,
{
}

/// A frame that did not fit into the texture can be tried again with a larger one: the same
/// sections are queued, positioned as they were, and their glyphs still wait.
pub proof fn refused_frames_can_be_retried<'font, V: Clone, H: SectionHasher, F: Fn(
    GlyphVertex,
) -> V>(
    state: BrushState<'font, V, H>,
    refused: BrushState<'font, V, H>,
    error: BrushError,
    to_vertex: F,
    resized: BrushState<'font, V, H>,
    size: (u32, u32),
)
    requires
        state.valid(),
        state.processed(refused, Err(error), to_vertex),
        refused.texture_resized(resized, size.0, size.1),
    ensures
        resized.valid(),
        resized.coherent(),
        resized.buffer == state.buffer,
        resized.keep == state.keep,
        resized.pre == state.pre,
        resized.sections.dom() == state.sections.dom(),
        forall|h: SectionHash| #[trigger]
            state.sections.contains_key(h) ==> resized.sections[h].positioned
                == state.sections[h].positioned,
        resized.any_text(),
        exists|order: Seq<SectionHash>| #[trigger]
            state.orders_kept(order) && crate::texture::texture_queue(resized.texture)
                == state.frame_queue(order),
{
    assert(resized.sections.dom() =~= state.sections.dom());
    if exists|h: SectionHash|
        state.keep.contains(h) && #[trigger] state.sections.contains_key(h)
            && state.sections[h].positioned.glyphs.len() > 0 {
        let h = choose|h: SectionHash|
            state.keep.contains(h) && #[trigger] state.sections.contains_key(h)
                && state.sections[h].positioned.glyphs.len() > 0;
        assert(resized.sections.contains_key(h));
    } else {
        let i = choose|i: int|
            0 <= i < state.pre.len() && (#[trigger] state.pre[i]).glyphs.len() > 0;
        assert(resized.pre[i].glyphs.len() > 0);
    }
}

/// A frame that did not fit into the texture is drawn once the texture has room for it: for what
/// still waits, and for the frame. It is drawn anew unless what is queued has the hash that
/// stands for nothing drawn.
pub proof fn refused_frames_are_drawn_with_room<'font, V: Clone, H: SectionHasher, F: Fn(
    GlyphVertex,
) -> V>(
    state: BrushState<'font, V, H>,
    refused: BrushState<'font, V, H>,
    error: BrushError,
    to_vertex: F,
    resized: BrushState<'font, V, H>,
    size: (u32, u32),
    after: BrushState<'font, V, H>,
    outcome: Result<BrushAction<V>, BrushError>,
)
    requires
        state.processed(refused, Err(error), to_vertex),
        refused.texture_resized(resized, size.0, size.1),
        resized.frame_fits(),
        resized.processed(after, outcome, to_vertex),
    ensures
        outcome is Ok,
        state.text_state() != 0 ==> (outcome matches Ok(BrushAction::Draw(_))),
{
}

/// A brush built from the builder of another has its fonts, its texture's attributes and its
/// settings. Several threads draw its glyphs only where they did for the other.
pub proof fn rebuilt_brushes_match<'font, V, H>(
    state: BrushState<'font, V, H>,
    builder: BuilderState<'font, H>,
    built: BrushState<'font, V, H>,
)
    requires
        builder.fonts@ == state.fonts@,
        builder.cache_positioning == state.cache_positioning,
        builder.cache_drawing == state.cache_drawing,
        builder.attributes == crate::texture::texture_attributes(state.texture),
        built.fonts == builder.fonts,
        built.cache_positioning == builder.cache_positioning,
        built.cache_drawing == builder.cache_drawing,
        builder.attributes.built_as(crate::texture::texture_attributes(built.texture)),
    ensures
        built.fonts@ == state.fonts@,
        built.cache_positioning == state.cache_positioning,
        built.cache_drawing == state.cache_drawing,
        built.texture_size() == state.texture_size(),
        crate::texture::texture_attributes(state.texture).built_as(
            crate::texture::texture_attributes(built.texture),
        ),
{
}

/// Whether two texts have the same runs but for their colours: the same strings in the same
/// fonts and scales.
pub open spec fn runs_match(a: Seq<SectionText<'_>>, b: Seq<SectionText<'_>>) -> bool {
    &&& a.len() == b.len()
    &&& forall|i: int|
        0 <= i < a.len() ==> {
            &&& (#[trigger] a[i]).text == b[i].text
            &&& a[i].font_id == b[i].font_id
            &&& a[i].scale.x.canonical() == b[i].scale.x.canonical()
            &&& a[i].scale.y.canonical() == b[i].scale.y.canonical()
        }
}

/// Whether two texts of equally many runs have the same alphas.
pub open spec fn alphas_match(a: Seq<SectionText<'_>>, b: Seq<SectionText<'_>>) -> bool {
    forall|i: int|
        0 <= i < a.len() ==> (#[trigger] a[i]).color[3].canonical() == b[i].color[3].canonical()
}

/// Whether two texts of equally many runs have the same colours but for their alphas.
pub open spec fn colors_match(a: Seq<SectionText<'_>>, b: Seq<SectionText<'_>>) -> bool {
    forall|i: int|
        0 <= i < a.len() ==> {
            &&& (#[trigger] a[i]).color[0].canonical() == b[i].color[0].canonical()
            &&& a[i].color[1].canonical() == b[i].color[1].canonical()
            &&& a[i].color[2].canonical() == b[i].color[2].canonical()
        }
}

proof fn lemma_same_runs(a: Seq<SectionText<'_>>, b: Seq<SectionText<'_>>)
    requires
        runs_match(a, b),
    ensures
        crate::hashing::text_bytes(a) == crate::hashing::text_bytes(b),
        alphas_match(a, b) ==> crate::hashing::alpha_bytes(a) == crate::hashing::alpha_bytes(b),
        colors_match(a, b) ==> crate::hashing::color_bytes(a) == crate::hashing::color_bytes(b),
    decreases a.len(),
{
    if a.len() > 0 {
        let (fa, fb) = (a.drop_last(), b.drop_last());
        assert forall|i: int| 0 <= i < fa.len() implies #[trigger] fa[i] == a[i] && fb[i]
            == b[i] by {}
        assert(a[a.len() - 1] == a.last());
        lemma_same_runs(fa, fb);
    }
}

/// Sections that are the same, number by number, share all their hashes. Zeros of either sign
/// count as the same here, and so do all NaNs.
pub proof fn equal_sections_hash_alike<H: SectionHasher, L, M, G: GlyphPositioner>(
    hasher: H,
    a: VariedSection<'_, L>,
    b: VariedSection<'_, M>,
    layout: G,
)
    requires
        runs_match(a.text@, b.text@),
        alphas_match(a.text@, b.text@),
        colors_match(a.text@, b.text@),
        a.screen_position.x.canonical() == b.screen_position.x.canonical(),
        a.screen_position.y.canonical() == b.screen_position.y.canonical(),
        a.bounds.x.canonical() == b.bounds.x.canonical(),
        a.bounds.y.canonical() == b.bounds.y.canonical(),
        a.z.canonical() == b.z.canonical(),
    ensures
        SectionHashDetail::of(hasher, a, layout) == (SectionHashDetail {
            geometry: a.geometry_spec(),
            ..SectionHashDetail::of(hasher, b, layout)
        }),
{
    lemma_same_runs(a.text@, b.text@);
    let (wa, wb) = (
        crate::hashing::section_writes(a, layout),
        crate::hashing::section_writes(b, layout),
    );
    assert(wa =~= wb);
}

/// A section that differs from another in no more than its place, its bounds and its depth is
/// laid out by moving the glyphs of the other.
pub proof fn moved_sections_change_geometry<H: SectionHasher, L, M, G: GlyphPositioner>(
    hasher: H,
    a: VariedSection<'_, L>,
    b: VariedSection<'_, M>,
    layout: G,
)
    requires
        runs_match(a.text@, b.text@),
        alphas_match(a.text@, b.text@),
        colors_match(a.text@, b.text@),
    ensures
        SectionHashDetail::of(hasher, a, layout).diff_spec(SectionHashDetail::of(hasher, b, layout))
            == SectionHashDiff::GeometryChange,
{
    lemma_same_runs(a.text@, b.text@);
    let (wa, wb) = (
        crate::hashing::section_writes(a, layout),
        crate::hashing::section_writes(b, layout),
    );
    assert(wa.take(4) =~= wb.take(4));
}

/// A section that differs from another at the same place in no more than its colours, alpha
/// aside, is laid out by recolouring the glyphs of the other, unless their texts share a hash.
pub proof fn recoloured_sections_change_color<H: SectionHasher, L, M, G: GlyphPositioner>(
    hasher: H,
    a: VariedSection<'_, L>,
    b: VariedSection<'_, M>,
    layout: G,
)
    requires
        runs_match(a.text@, b.text@),
        alphas_match(a.text@, b.text@),
        crate::section::geometries_equal(a.geometry_spec(), b.geometry_spec()),
        SectionHashDetail::of(hasher, a, layout).text != SectionHashDetail::of(
            hasher,
            b,
            layout,
        ).text,
    ensures
        SectionHashDetail::of(hasher, a, layout).diff_spec(SectionHashDetail::of(hasher, b, layout))
            == SectionHashDiff::ColorChange,
{
    lemma_same_runs(a.text@, b.text@);
    let (wa, wb) = (
        crate::hashing::section_writes(a, layout),
        crate::hashing::section_writes(b, layout),
    );
    assert(wa.take(3) =~= wb.take(3));
}

/// A section that differs from another at the same place in no more than its colours, alpha
/// included, is laid out by changing the alpha of the glyphs of the other, unless their texts
/// share a hash with or without the alpha.
pub proof fn faded_sections_change_alpha<H: SectionHasher, L, M, G: GlyphPositioner>(
    hasher: H,
    a: VariedSection<'_, L>,
    b: VariedSection<'_, M>,
    layout: G,
)
    requires
        runs_match(a.text@, b.text@),
        crate::section::geometries_equal(a.geometry_spec(), b.geometry_spec()),
        SectionHashDetail::of(hasher, a, layout).text != SectionHashDetail::of(
            hasher,
            b,
            layout,
        ).text,
        SectionHashDetail::of(hasher, a, layout).text_no_color != SectionHashDetail::of(
            hasher,
            b,
            layout,
        ).text_no_color,
    ensures
        SectionHashDetail::of(hasher, a, layout).diff_spec(SectionHashDetail::of(hasher, b, layout))
            == SectionHashDiff::AlphaChange,
{
    lemma_same_runs(a.text@, b.text@);
    let (wa, wb) = (
        crate::hashing::section_writes(a, layout),
        crate::hashing::section_writes(b, layout),
    );
    assert(wa.take(2) =~= wb.take(2));
}

} // verus!
