//! Why what a frame queues ends up in the texture, and why vertices stay right.
use crate::glyph::{SectionGlyph, SectionView};
use crate::glyphed::{GlyphVertex, GlyphedView, TextureRects};
use crate::hashing::{SectionHash, SectionHashDetail, SectionHasher};
use crate::section::{GlyphPositioner, VariedSection};
use crate::state::BrushState;
use rusttype::PositionedGlyph;
use vstd::prelude::*;

verus! {

/// Queueing glyphs drops none that waits, and takes in each that has a box.
pub proof fn lemma_queue_glyphs<'font>(
    queue: Seq<(usize, PositionedGlyph<'font>)>,
    glyphs: Seq<SectionGlyph<'font>>,
)
    ensures
        forall|x: (usize, PositionedGlyph<'font>)|
            queue.contains(x) ==> #[trigger] crate::state::queue_glyphs(queue, glyphs).contains(x),
        forall|i: int|
            0 <= i < glyphs.len() && crate::texture::glyph_box((#[trigger] glyphs[i]).glyph) is Some
                ==> crate::state::queue_glyphs(queue, glyphs).contains(
                (glyphs[i].font_id.0, glyphs[i].glyph),
            ),
    decreases glyphs.len(),
{
    if glyphs.len() > 0 {
        let front = glyphs.drop_last();
        lemma_queue_glyphs(queue, front);
        let before = crate::state::queue_glyphs(queue, front);
        let after = crate::state::queue_glyphs(queue, glyphs);
        let item = (glyphs.last().font_id.0, glyphs.last().glyph);
        if crate::texture::glyph_box(glyphs.last().glyph) is Some {
            assert(after == before.push(item));
            lemma_push_contains(before, item);
        }
        assert forall|i: int|
            0 <= i < glyphs.len() && crate::texture::glyph_box(
                (#[trigger] glyphs[i]).glyph,
            ) is Some implies after.contains((glyphs[i].font_id.0, glyphs[i].glyph)) by {
            if i < front.len() {
                assert(front[i] == glyphs[i]);
            }
        }
    }
}

proof fn lemma_push_contains<T>(s: Seq<T>, x: T)
    ensures
        s.push(x).contains(x),
        forall|y: T| s.contains(y) ==> #[trigger] s.push(x).contains(y),
{
    assert(s.push(x)[s.len() as int] == x);
    assert forall|y: T| s.contains(y) implies #[trigger] s.push(x).contains(y) by {
        let i = choose|i: int| 0 <= i < s.len() && s[i] == y;
        assert(s.push(x)[i] == y);
    }
}

/// Queueing listed sections drops no glyph that waits, and takes in each of theirs that has a
/// box.
pub proof fn lemma_queue_listed<'font, V>(
    queue: Seq<(usize, PositionedGlyph<'font>)>,
    sections: Map<SectionHash, GlyphedView<'font, V>>,
    hashes: Seq<SectionHash>,
)
    ensures
        forall|x: (usize, PositionedGlyph<'font>)|
            queue.contains(x) ==> #[trigger] crate::state::queue_listed(
                queue,
                sections,
                hashes,
            ).contains(x),
        forall|k: int, i: int|
            #![trigger hashes[k], sections[hashes[k]].positioned.glyphs[i]]
            0 <= k < hashes.len() && sections.contains_key(hashes[k]) && 0 <= i
                < sections[hashes[k]].positioned.glyphs.len() && crate::texture::glyph_box(
                sections[hashes[k]].positioned.glyphs[i].glyph,
            ) is Some ==> crate::state::queue_listed(queue, sections, hashes).contains(
                (
                    sections[hashes[k]].positioned.glyphs[i].font_id.0,
                    sections[hashes[k]].positioned.glyphs[i].glyph,
                ),
            ),
    decreases hashes.len(),
{
    if hashes.len() > 0 {
        let front = hashes.drop_last();
        lemma_queue_listed(queue, sections, front);
        let before = crate::state::queue_listed(queue, sections, front);
        if sections.contains_key(hashes.last()) {
            lemma_queue_glyphs(before, sections[hashes.last()].positioned.glyphs);
        }
        assert forall|k: int, i: int|
            #![trigger hashes[k], sections[hashes[k]].positioned.glyphs[i]]
            0 <= k < hashes.len() && sections.contains_key(hashes[k]) && 0 <= i
                < sections[hashes[k]].positioned.glyphs.len() && crate::texture::glyph_box(
                sections[hashes[k]].positioned.glyphs[i].glyph,
            ) is Some implies crate::state::queue_listed(queue, sections, hashes).contains(
            (
                sections[hashes[k]].positioned.glyphs[i].font_id.0,
                sections[hashes[k]].positioned.glyphs[i].glyph,
            ),
        ) by {
            if k < front.len() {
                assert(front[k] == hashes[k]);
                assert(sections[front[k]].positioned.glyphs[i]
                    == sections[hashes[k]].positioned.glyphs[i]);
            }
        }
    }
}

/// Queueing sections that came positioned drops no glyph that waits, and takes in each of
/// theirs that has a box.
pub proof fn lemma_queue_positioned<'font>(
    queue: Seq<(usize, PositionedGlyph<'font>)>,
    pre: Seq<SectionView<'font>>,
)
    ensures
        forall|x: (usize, PositionedGlyph<'font>)|
            queue.contains(x) ==> #[trigger] crate::state::queue_positioned(queue, pre).contains(x),
        forall|k: int, i: int|
            #![trigger pre[k].glyphs[i]]
            0 <= k < pre.len() && 0 <= i < pre[k].glyphs.len() && crate::texture::glyph_box(
                pre[k].glyphs[i].glyph,
            ) is Some ==> crate::state::queue_positioned(queue, pre).contains(
                (pre[k].glyphs[i].font_id.0, pre[k].glyphs[i].glyph),
            ),
    decreases pre.len(),
{
    if pre.len() > 0 {
        let front = pre.drop_last();
        lemma_queue_positioned(queue, front);
        lemma_queue_glyphs(crate::state::queue_positioned(queue, front), pre.last().glyphs);
        assert forall|k: int, i: int|
            #![trigger pre[k].glyphs[i]]
            0 <= k < pre.len() && 0 <= i < pre[k].glyphs.len() && crate::texture::glyph_box(
                pre[k].glyphs[i].glyph,
            ) is Some implies crate::state::queue_positioned(queue, pre).contains(
            (pre[k].glyphs[i].font_id.0, pre[k].glyphs[i].glyph),
        ) by {
            if k < front.len() {
                assert(front[k].glyphs[i] == pre[k].glyphs[i]);
            }
        }
    }
}

/// Every glyph with a box that is used in a frame is among those that wait once the frame's
/// glyphs are queued.
pub proof fn lemma_frame_is_queued<'font, V, H>(
    state: BrushState<'font, V, H>,
    order: Seq<SectionHash>,
)
    requires
        state.orders_kept(order),
    ensures
        forall|h: SectionHash, i: int|
            #![trigger state.sections[h].positioned.glyphs[i]]
            state.keep.contains(h) && state.sections.contains_key(h) && 0 <= i
                < state.sections[h].positioned.glyphs.len() && crate::texture::glyph_box(
                state.sections[h].positioned.glyphs[i].glyph,
            ) is Some ==> state.frame_queue(order).contains(
                (
                    state.sections[h].positioned.glyphs[i].font_id.0,
                    state.sections[h].positioned.glyphs[i].glyph,
                ),
            ),
        forall|k: int, i: int|
            #![trigger state.pre[k].glyphs[i]]
            0 <= k < state.pre.len() && 0 <= i < state.pre[k].glyphs.len()
                && crate::texture::glyph_box(state.pre[k].glyphs[i].glyph) is Some
                ==> state.frame_queue(order).contains(
                (state.pre[k].glyphs[i].font_id.0, state.pre[k].glyphs[i].glyph),
            ),
{
    let start = crate::texture::texture_queue(state.texture);
    let listed = crate::state::queue_listed(start, state.sections, order);
    lemma_queue_listed(start, state.sections, order);
    lemma_queue_positioned(listed, state.pre);
    assert forall|h: SectionHash, i: int|
        #![trigger state.sections[h].positioned.glyphs[i]]
        state.keep.contains(h) && state.sections.contains_key(h) && 0 <= i
            < state.sections[h].positioned.glyphs.len() && crate::texture::glyph_box(
            state.sections[h].positioned.glyphs[i].glyph,
        ) is Some implies state.frame_queue(order).contains(
        (
            state.sections[h].positioned.glyphs[i].font_id.0,
            state.sections[h].positioned.glyphs[i].glyph,
        ),
    ) by {
        assert(order.to_set().contains(h));
        let k = choose|k: int| 0 <= k < order.len() && order[k] == h;
        assert(sections_glyph(state.sections, order[k], i)
            == state.sections[h].positioned.glyphs[i]);
    }
}

spec fn sections_glyph<'font, V>(
    sections: Map<SectionHash, GlyphedView<'font, V>>,
    h: SectionHash,
    i: int,
) -> SectionGlyph<'font> {
    sections[h].positioned.glyphs[i]
}

/// Two textures that hold the glyphs of a section at the same places draw it alike.
pub proof fn lemma_same_places_same_vertices<'font>(
    section: SectionView<'font>,
    a: TextureRects<'font>,
    b: TextureRects<'font>,
)
    requires
        crate::state::section_held(section, a),
        crate::state::section_held(section, b),
        forall|i: int|
            0 <= i < section.glyphs.len() && crate::texture::glyph_box(
                (#[trigger] section.glyphs[i]).glyph,
            ) is Some ==> a[(section.glyphs[i].font_id.0, section.glyphs[i].glyph)] == b[(
                section.glyphs[i].font_id.0,
                section.glyphs[i].glyph,
            )],
    ensures
        crate::glyphed::vertices_for(section, a) == crate::glyphed::vertices_for(section, b),
    decreases section.glyphs.len(),
{
    if section.glyphs.len() > 0 {
        let front = SectionView { glyphs: section.glyphs.drop_last(), ..section };
        assert forall|i: int| 0 <= i < front.glyphs.len() implies #[trigger] front.glyphs[i]
            == section.glyphs[i] by {}
        lemma_same_places_same_vertices(front, a, b);
        assert(section.glyphs[section.glyphs.len() - 1] == section.glyphs.last());
    }
}

/// Making the vertices of a section a second time changes nothing.
pub proof fn lemma_ensured_twice<'font, V, F: Fn(GlyphVertex) -> V>(
    start: GlyphedView<'font, V>,
    once: GlyphedView<'font, V>,
    twice: GlyphedView<'font, V>,
    rects: TextureRects<'font>,
    to_vertex: F,
)
    requires
        once.ensured_from(start, rects, to_vertex),
        twice.ensured_from(once, rects, to_vertex),
    ensures
        twice == once,
{
    assert(twice.vertices =~= once.vertices);
    assert(twice =~= once);
}

/// A section has no more vertices than glyphs.
pub proof fn lemma_vertices_are_few<'font>(
    section: SectionView<'font>,
    rects: TextureRects<'font>,
)
    ensures
        crate::glyphed::vertices_for(section, rects).len() <= section.glyphs.len(),
    decreases section.glyphs.len(),
{
    if section.glyphs.len() > 0 {
        lemma_vertices_are_few(
            SectionView { glyphs: section.glyphs.drop_last(), ..section },
            rects,
        );
    }
}

/// The vertices of listed sections do not depend on sections that are not listed.
pub proof fn lemma_listed_vertices_agree<'font, V>(
    a: Map<SectionHash, GlyphedView<'font, V>>,
    b: Map<SectionHash, GlyphedView<'font, V>>,
    hashes: Seq<SectionHash>,
)
    requires
        forall|h: SectionHash| #[trigger] hashes.contains(h) ==> a[h] == b[h],
    ensures
        crate::state::listed_vertices(a, hashes) == crate::state::listed_vertices(b, hashes),
    decreases hashes.len(),
{
    if hashes.len() > 0 {
        let front = hashes.drop_last();
        assert forall|h: SectionHash| #[trigger] front.contains(h) implies a[h] == b[h] by {
            let i = choose|i: int| 0 <= i < front.len() && front[i] == h;
            assert(hashes[i] == h);
            assert(hashes.contains(h));
        }
        lemma_listed_vertices_agree(a, b, front);
        assert(hashes.contains(hashes.last()));
    }
}

/// Making the vertices of one more section leaves those of the others as they are.
pub proof fn lemma_one_more_made<'font, V, F: Fn(GlyphVertex) -> V>(
    start: Map<SectionHash, GlyphedView<'font, V>>,
    before: Map<SectionHash, GlyphedView<'font, V>>,
    done: Seq<SectionHash>,
    hash: SectionHash,
    made: GlyphedView<'font, V>,
    rects: TextureRects<'font>,
    to_vertex: F,
)
    requires
        crate::state::vertices_ensured(start, before, done, rects, to_vertex),
        before.contains_key(hash),
        made.ensured_from(before[hash], rects, to_vertex),
    ensures
        crate::state::vertices_ensured(
            start,
            before.insert(hash, made),
            done.push(hash),
            rects,
            to_vertex,
        ),
        forall|h: SectionHash| #[trigger]
            done.contains(h) ==> before.insert(hash, made)[h] == before[h],
{
    let after = before.insert(hash, made);
    if done.contains(hash) {
        lemma_ensured_twice(start[hash], before[hash], made, rects, to_vertex);
    }
    lemma_push_contains(done, hash);
    assert(after.dom() =~= start.dom());
    assert forall|h: SectionHash| #[trigger] after.contains_key(h) implies (if done.push(
        hash,
    ).contains(h) {
        after[h].ensured_from(start[h], rects, to_vertex)
    } else {
        after[h] == start[h]
    }) by {
        assert(before.contains_key(h));
        if h != hash && done.push(hash).contains(h) {
            let i = choose|i: int| 0 <= i < done.push(hash).len() && done.push(hash)[i] == h;
            assert(done[i] == h);
            assert(done.contains(h));
        }
    }
}

/// Vertices made one after the other are made from what they were made from, in order.
pub proof fn lemma_made_in_turn<V, F: Fn(GlyphVertex) -> V>(
    to_vertex: F,
    drawn: Seq<GlyphVertex>,
    vertices: Seq<V>,
    more_drawn: Seq<GlyphVertex>,
    more_vertices: Seq<V>,
)
    requires
        crate::glyphed::made_by(to_vertex, drawn, vertices),
        crate::glyphed::made_by(to_vertex, more_drawn, more_vertices),
    ensures
        crate::glyphed::made_by(to_vertex, drawn + more_drawn, vertices + more_vertices),
{
}

/// A texture that holds all glyphs that waited holds every glyph with a box that is used in the
/// frame.
pub proof fn lemma_frame_is_held<'font, V, H>(
    state: BrushState<'font, V, H>,
    order: Seq<SectionHash>,
    rects: TextureRects<'font>,
)
    requires
        state.orders_kept(order),
        forall|x: (usize, PositionedGlyph<'font>)| #[trigger]
            state.frame_queue(order).contains(x) ==> rects.contains_key(x),
    ensures
        state.text_held(rects),
{
    lemma_frame_is_queued(state, order);
    assert forall|h: SectionHash|
        state.keep.contains(h) && #[trigger] state.sections.contains_key(
            h,
        ) implies crate::state::section_held(state.sections[h].positioned, rects) by {
        let section = state.sections[h].positioned;
        assert forall|i: int|
            0 <= i < section.glyphs.len() implies !crate::texture::glyph_missed(
            rects,
            (#[trigger] section.glyphs[i]).font_id.0,
            section.glyphs[i].glyph,
        ) by {
            let x = (section.glyphs[i].font_id.0, section.glyphs[i].glyph);
            assert(state.sections[h].positioned.glyphs[i] == section.glyphs[i]);
            if crate::texture::glyph_box(x.1) is Some {
                assert(state.frame_queue(order).contains(x));
            }
        }
    }
    assert forall|k: int| 0 <= k < state.pre.len() implies crate::state::section_held(
        #[trigger] state.pre[k],
        rects,
    ) by {
        let section = state.pre[k];
        assert forall|i: int|
            0 <= i < section.glyphs.len() implies !crate::texture::glyph_missed(
            rects,
            (#[trigger] section.glyphs[i]).font_id.0,
            section.glyphs[i].glyph,
        ) by {
            let x = (section.glyphs[i].font_id.0, section.glyphs[i].glyph);
            assert(state.pre[k].glyphs[i] == section.glyphs[i]);
            if crate::texture::glyph_box(x.1) is Some {
                assert(state.frame_queue(order).contains(x));
            }
        }
    }
}

/// Where the glyphs of the frame that a texture held stay where they were, the vertices of the
/// sections used in the frame stay right.
pub proof fn lemma_kept_still_shown<'font, V, H>(
    state: BrushState<'font, V, H>,
    order: Seq<SectionHash>,
    rects: TextureRects<'font>,
)
    requires
        state.coherent(),
        state.orders_kept(order),
        state.text_held(rects),
        forall|x: (usize, PositionedGlyph<'font>)| #[trigger]
            state.frame_queue(order).contains(x) && state.rects().contains_key(x) ==> rects[x]
                == state.rects()[x],
    ensures
        forall|h: SectionHash|
            state.keep.contains(h) && #[trigger] state.sections.contains_key(h)
                ==> state.sections[h].shows(rects),
{
    lemma_frame_is_queued(state, order);
    assert forall|h: SectionHash|
        state.keep.contains(h) && #[trigger] state.sections.contains_key(
            h,
        ) implies state.sections[h].shows(rects) by {
        let section = state.sections[h].positioned;
        if state.sections[h].vertices.len() > 0 {
            assert forall|i: int|
                0 <= i < section.glyphs.len() && crate::texture::glyph_box(
                    (#[trigger] section.glyphs[i]).glyph,
                ) is Some implies state.rects()[(
                section.glyphs[i].font_id.0,
                section.glyphs[i].glyph,
            )] == rects[(section.glyphs[i].font_id.0, section.glyphs[i].glyph)] by {
                let x = (section.glyphs[i].font_id.0, section.glyphs[i].glyph);
                assert(state.sections[h].positioned.glyphs[i] == section.glyphs[i]);
                assert(state.frame_queue(order).contains(x));
                assert(!crate::texture::glyph_missed(state.rects(), x.0, x.1));
            }
            lemma_same_places_same_vertices(section, state.rects(), rects);
        }
    }
}

/// Vertices that are made from a texture that holds the glyphs show them as it holds them.
pub proof fn lemma_made_are_shown<'font, V, F: Fn(GlyphVertex) -> V>(
    before: Map<SectionHash, GlyphedView<'font, V>>,
    after: Map<SectionHash, GlyphedView<'font, V>>,
    buffer: Seq<SectionHash>,
    keep: Set<SectionHash>,
    rects: TextureRects<'font>,
    to_vertex: F,
)
    requires
        crate::state::vertices_ensured(before, after, buffer, rects, to_vertex),
        forall|h: SectionHash|
            keep.contains(h) && #[trigger] before.contains_key(h) ==> before[h].shows(rects)
                && crate::state::section_held(before[h].positioned, rects),
    ensures
        forall|h: SectionHash|
            keep.contains(h) && #[trigger] after.contains_key(h) ==> after[h].shows(rects),
{
    assert forall|h: SectionHash|
        keep.contains(h) && #[trigger] after.contains_key(h) implies after[h].shows(rects) by {
        assert(before.dom().contains(h));
        assert(before.contains_key(h));
    }
}

/// A frame that is drawn keeps vertices right.
pub proof fn lemma_drawing_keeps_coherence<'font, V: Clone, H: SectionHasher, F: Fn(
    GlyphVertex,
) -> V>(
    state: BrushState<'font, V, H>,
    cached: BrushState<'font, V, H>,
    after: BrushState<'font, V, H>,
    reordered: bool,
    vertices: Seq<V>,
    to_vertex: F,
)
    requires
        state.coherent(),
        state.text_cached(cached, reordered),
        cached.finished(after, reordered, vertices, to_vertex),
    ensures
        after.coherent(),
{
    let rects = cached.rects();
    let before = cached.sections_usable(reordered);
    let sections = choose|sections: Map<SectionHash, GlyphedView<'font, V>>|
        {
            &&& #[trigger] crate::state::vertices_ensured(
                cached.sections_usable(reordered),
                sections,
                cached.buffer,
                cached.rects(),
                to_vertex,
            )
            &&& crate::state::draws(
                vertices,
                sections,
                cached.buffer,
                cached.pre,
                cached.rects(),
                to_vertex,
            )
            &&& after == (BrushState {
                last_draw: cached.text_state(),
                sections,
                ..cached
            }).after_frame()
        };
    assert forall|h: SectionHash|
        state.keep.contains(h) && #[trigger] before.contains_key(h) implies before[h].shows(rects)
        && crate::state::section_held(before[h].positioned, rects) by {
        assert(state.sections.contains_key(h));
    }
    lemma_made_are_shown(before, sections, cached.buffer, state.keep, rects, to_vertex);
    assert forall|h: SectionHash| #[trigger]
        after.sections.contains_key(h) implies after.sections[h].shows(after.rects()) by {
        assert(sections.contains_key(h));
    }
}

/// Queueing listed sections without glyphs queues nothing.
proof fn lemma_nothing_listed<'font, V>(
    queue: Seq<(usize, PositionedGlyph<'font>)>,
    sections: Map<SectionHash, GlyphedView<'font, V>>,
    hashes: Seq<SectionHash>,
)
    requires
        forall|k: int|
            0 <= k < hashes.len() && sections.contains_key(#[trigger] hashes[k])
                ==> sections[hashes[k]].positioned.glyphs.len() == 0,
    ensures
        crate::state::queue_listed(queue, sections, hashes) == queue,
    decreases hashes.len(),
{
    if hashes.len() > 0 {
        let front = hashes.drop_last();
        assert forall|k: int|
            0 <= k < front.len() && sections.contains_key(
                #[trigger] front[k],
            ) implies sections[front[k]].positioned.glyphs.len() == 0 by {
            assert(front[k] == hashes[k]);
        }
        lemma_nothing_listed(queue, sections, front);
        assert(hashes[hashes.len() - 1] == hashes.last());
    }
}

/// Queueing positioned sections without glyphs queues nothing.
proof fn lemma_nothing_positioned<'font>(
    queue: Seq<(usize, PositionedGlyph<'font>)>,
    pre: Seq<SectionView<'font>>,
)
    requires
        forall|k: int| 0 <= k < pre.len() ==> (#[trigger] pre[k]).glyphs.len() == 0,
    ensures
        crate::state::queue_positioned(queue, pre) == queue,
    decreases pre.len(),
{
    if pre.len() > 0 {
        let front = pre.drop_last();
        assert forall|k: int| 0 <= k < front.len() implies (#[trigger] front[k]).glyphs.len()
            == 0 by {
            assert(front[k] == pre[k]);
        }
        lemma_nothing_positioned(queue, front);
        assert(pre[pre.len() - 1] == pre.last());
    }
}

/// A frame without glyphs queues nothing.
pub proof fn lemma_no_text_no_queue<'font, V, H>(
    state: BrushState<'font, V, H>,
    order: Seq<SectionHash>,
)
    requires
        state.orders_kept(order),
        !state.any_text(),
    ensures
        state.frame_queue(order) == crate::texture::texture_queue(state.texture),
{
    let start = crate::texture::texture_queue(state.texture);
    assert forall|k: int|
        0 <= k < order.len() && state.sections.contains_key(
            #[trigger] order[k],
        ) implies state.sections[order[k]].positioned.glyphs.len() == 0 by {
        assert(order.to_set().contains(order[k]));
    }
    lemma_nothing_listed(start, state.sections, order);
    lemma_nothing_positioned(start, state.pre);
}

/// Using a section keeps vertices right.
pub proof fn lemma_using_keeps_coherence<'font, V, H: SectionHasher, L, G: GlyphPositioner>(
    state: BrushState<'font, V, H>,
    after: BrushState<'font, V, H>,
    section: VariedSection<'_, L>,
    layout: G,
)
    requires
        state.coherent(),
        state.glyphs_cached(after, section, layout),
    ensures
        after.coherent(),
{
    let detail = SectionHashDetail::of(state.hasher, section, layout);
    assert forall|h: SectionHash| #[trigger]
        after.sections.contains_key(h) implies after.sections[h].shows(after.rects()) by {
        if !state.known(detail.full) {
            let left = state.sections_left(detail);
            if h != detail.full {
                assert(left.contains_key(h));
                assert(state.sections.contains_key(h));
            }
        } else {
            assert(state.sections.contains_key(h));
        }
    }
}

/// Making vertices leaves no section with more vertices than glyphs.
pub proof fn lemma_made_are_bounded<'font, V, F: Fn(GlyphVertex) -> V>(
    before: Map<SectionHash, GlyphedView<'font, V>>,
    after: Map<SectionHash, GlyphedView<'font, V>>,
    buffer: Seq<SectionHash>,
    rects: TextureRects<'font>,
    to_vertex: F,
)
    requires
        crate::state::vertices_ensured(before, after, buffer, rects, to_vertex),
        forall|h: SectionHash| #[trigger]
            before.contains_key(h) ==> before[h].vertices.len()
                <= before[h].positioned.glyphs.len(),
    ensures
        forall|h: SectionHash| #[trigger]
            after.contains_key(h) ==> after[h].vertices.len() <= after[h].positioned.glyphs.len(),
{
    assert forall|h: SectionHash| #[trigger] after.contains_key(h) implies after[h].vertices.len()
        <= after[h].positioned.glyphs.len() by {
        assert(before.dom().contains(h));
        assert(before.contains_key(h));
        lemma_vertices_are_few(before[h].positioned, rects);
    }
}

/// Queueing glyphs that a texture holds leaves it holding all that wait.
proof fn lemma_held_glyphs_queued<'font>(
    queue: Seq<(usize, PositionedGlyph<'font>)>,
    section: SectionView<'font>,
    glyphs: Seq<SectionGlyph<'font>>,
    rects: TextureRects<'font>,
)
    requires
        forall|x: (usize, PositionedGlyph<'font>)| #[trigger]
            queue.contains(x) ==> rects.contains_key(x),
        crate::state::section_held(section, rects),
        glyphs.len() <= section.glyphs.len(),
        glyphs == section.glyphs.take(glyphs.len() as int),
    ensures
        forall|x: (usize, PositionedGlyph<'font>)| #[trigger]
            crate::state::queue_glyphs(queue, glyphs).contains(x) ==> rects.contains_key(x),
    decreases glyphs.len(),
{
    if glyphs.len() > 0 {
        let front = glyphs.drop_last();
        assert(front =~= section.glyphs.take(front.len() as int));
        lemma_held_glyphs_queued(queue, section, front, rects);
        let last = section.glyphs[glyphs.len() - 1];
        assert(glyphs.last() == last);
        assert(!crate::texture::glyph_missed(rects, last.font_id.0, last.glyph));
        lemma_pushed_contains(
            crate::state::queue_glyphs(queue, front),
            (last.font_id.0, last.glyph),
        );
    }
}

proof fn lemma_pushed_contains<T>(s: Seq<T>, x: T)
    ensures
        forall|y: T| #[trigger] s.push(x).contains(y) ==> s.contains(y) || y == x,
{
    assert forall|y: T| #[trigger] s.push(x).contains(y) implies s.contains(y) || y == x by {
        let i = choose|i: int| 0 <= i < s.push(x).len() && s.push(x)[i] == y;
        if i < s.len() {
            assert(s[i] == y);
        }
    }
}

/// Queueing listed sections that a texture holds leaves it holding all that wait.
proof fn lemma_held_listed_queued<'font, V>(
    queue: Seq<(usize, PositionedGlyph<'font>)>,
    sections: Map<SectionHash, GlyphedView<'font, V>>,
    hashes: Seq<SectionHash>,
    rects: TextureRects<'font>,
)
    requires
        forall|x: (usize, PositionedGlyph<'font>)| #[trigger]
            queue.contains(x) ==> rects.contains_key(x),
        forall|k: int|
            0 <= k < hashes.len() && sections.contains_key(#[trigger] hashes[k])
                ==> crate::state::section_held(sections[hashes[k]].positioned, rects),
    ensures
        forall|x: (usize, PositionedGlyph<'font>)| #[trigger]
            crate::state::queue_listed(queue, sections, hashes).contains(x)
                ==> rects.contains_key(x),
    decreases hashes.len(),
{
    if hashes.len() > 0 {
        let front = hashes.drop_last();
        assert forall|k: int|
            0 <= k < front.len() && sections.contains_key(
                #[trigger] front[k],
            ) implies crate::state::section_held(sections[front[k]].positioned, rects) by {
            assert(front[k] == hashes[k]);
        }
        lemma_held_listed_queued(queue, sections, front, rects);
        assert(hashes[hashes.len() - 1] == hashes.last());
        let before = crate::state::queue_listed(queue, sections, front);
        let after = crate::state::queue_listed(queue, sections, hashes);
        if sections.contains_key(hashes.last()) {
            let section = sections[hashes.last()].positioned;
            assert(section.glyphs =~= section.glyphs.take(section.glyphs.len() as int));
            lemma_held_glyphs_queued(before, section, section.glyphs, rects);
            assert(after == crate::state::queue_glyphs(before, section.glyphs));
        } else {
            assert(after == before);
        }
    }
}

/// Queueing positioned sections that a texture holds leaves it holding all that wait.
proof fn lemma_held_positioned_queued<'font>(
    queue: Seq<(usize, PositionedGlyph<'font>)>,
    pre: Seq<SectionView<'font>>,
    rects: TextureRects<'font>,
)
    requires
        forall|x: (usize, PositionedGlyph<'font>)| #[trigger]
            queue.contains(x) ==> rects.contains_key(x),
        forall|k: int|
            0 <= k < pre.len() ==> crate::state::section_held(#[trigger] pre[k], rects),
    ensures
        forall|x: (usize, PositionedGlyph<'font>)| #[trigger]
            crate::state::queue_positioned(queue, pre).contains(x) ==> rects.contains_key(x),
    decreases pre.len(),
{
    if pre.len() > 0 {
        let front = pre.drop_last();
        assert forall|k: int| 0 <= k < front.len() implies crate::state::section_held(
            #[trigger] front[k],
            rects,
        ) by {
            assert(front[k] == pre[k]);
        }
        lemma_held_positioned_queued(queue, front, rects);
        let section = pre[pre.len() - 1];
        assert(section.glyphs =~= section.glyphs.take(section.glyphs.len() as int));
        lemma_held_glyphs_queued(
            crate::state::queue_positioned(queue, front),
            section,
            section.glyphs,
            rects,
        );
    }
}

/// Where a texture holds the glyphs of a frame and all that wait, it still holds all that wait
/// once the frame is queued.
pub proof fn lemma_held_frame_queued<'font, V, H>(
    state: BrushState<'font, V, H>,
    order: Seq<SectionHash>,
)
    requires
        state.orders_kept(order),
        state.text_held(state.rects()),
        !crate::texture::queue_lacking(state.texture),
    ensures
        forall|x: (usize, PositionedGlyph<'font>)| #[trigger]
            state.frame_queue(order).contains(x) ==> state.rects().contains_key(x),
{
    let start = crate::texture::texture_queue(state.texture);
    assert forall|x: (usize, PositionedGlyph<'font>)| #[trigger]
        start.contains(x) implies state.rects().contains_key(x) by {
        let i = choose|i: int| 0 <= i < start.len() && start[i] == x;
        assert(state.rects().contains_key(crate::texture::texture_queue(state.texture)[i]));
    }
    assert forall|k: int|
        0 <= k < order.len() && state.sections.contains_key(
            #[trigger] order[k],
        ) implies crate::state::section_held(
        state.sections[order[k]].positioned,
        state.rects(),
    ) by {
        assert(order.to_set().contains(order[k]));
    }
    lemma_held_listed_queued(start, state.sections, order, state.rects());
    lemma_held_positioned_queued(
        crate::state::queue_listed(start, state.sections, order),
        state.pre,
        state.rects(),
    );
}

} // verus!
