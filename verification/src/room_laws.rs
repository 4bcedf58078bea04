//! Which frames can be drawn: those whose pixels can be counted, and which the texture has room
//! for.
use crate::brush::{BrushAction, BrushError};
use crate::geometry::Rectangle;
use crate::glyph::{SectionGlyph, SectionView};
use crate::glyphed::{GlyphVertex, GlyphedView};
use crate::hashing::{SectionHash, SectionHasher};
use crate::number_laws::no_number;
use crate::state::BrushState;
use crate::texture::{
    glyph_box, glyph_origin_box, glyph_position, rect_region, texture_attributes, texture_queue,
    texture_rects, TextureAttributes,
};
use rusttype::PositionedGlyph;
use vstd::arithmetic::power2::pow2;
use vstd::prelude::*;

verus! {

/// Whether a coordinate lies no farther than 2^29 pixels from the origin.
pub open spec fn near(x: i32) -> bool {
    -0x2000_0000 <= x <= 0x2000_0000
}

/// Whether a box lies near the origin, and is not turned over.
pub open spec fn box_near(b: Rectangle<i32>) -> bool {
    &&& near(b.min.x) && near(b.min.y) && near(b.max.x) && near(b.max.y)
    &&& b.min.x <= b.max.x && b.min.y <= b.max.y
}

/// Whether a glyph lies near the origin, if it has a box: the box, the one that it has when it is
/// moved there, and its position.
pub open spec fn glyph_near(glyph: PositionedGlyph<'_>) -> bool {
    glyph_box(glyph) matches Some(b) ==> {
        let at = glyph_position(glyph);
        &&& box_near(b)
        &&& glyph_origin_box(glyph) matches Some(o) && box_near(o)
        &&& !no_number(at.x) && !no_number(at.y)
        &&& -0x2000_0000 * pow2(149) <= at.x.value() <= 0x2000_0000 * pow2(149)
        &&& -0x2000_0000 * pow2(149) <= at.y.value() <= 0x2000_0000 * pow2(149)
    }
}

proof fn lemma_floor_near(x: crate::float32::Float32)
    requires
        !no_number(x),
        -0x2000_0000 * pow2(149) <= x.value() <= 0x2000_0000 * pow2(149),
    ensures
        -0x2000_0001 <= x.floor_spec() <= 0x2000_0000,
        !x.is_nan_spec(),
{
    crate::number_laws::patterns_compare_as_numbers(x, x);
    crate::number_laws::floors_and_ceilings_enclose(x);
    vstd::arithmetic::power2::lemma_pow2_pos(149);
    let (f, one) = (x.floor_spec(), pow2(149) as int);
    assert(f <= 0x2000_0000) by (nonlinear_arith)
        requires
            f == i32::MIN || f * one <= 0x2000_0000 * one,
            one > 0,
    ;
    assert(f >= -0x2000_0001) by (nonlinear_arith)
        requires
            f == i32::MAX || -0x2000_0000 * one < (f + 1) * one,
            one > 0,
    ;
}

/// The pixels of a glyph near the origin can be counted, and so can those of a glyph without a
/// box.
pub proof fn glyphs_near_the_origin_are_in_reach(glyph: PositionedGlyph<'_>)
    requires
        glyph_near(glyph),
    ensures
        crate::texture::glyph_in_reach(glyph),
{
    if glyph_box(glyph) is Some {
        lemma_floor_near(glyph_position(glyph).x);
        lemma_floor_near(glyph_position(glyph).y);
    }
}

/// Where the pixels of a glyph can be counted, its sides can be measured, and it can be moved from
/// the origin to its position without leaving the range of `i32`.
pub proof fn glyphs_in_reach_can_be_moved(
    glyph: PositionedGlyph<'_>,
    b: Rectangle<i32>,
    o: Rectangle<i32>,
)
    requires
        crate::texture::glyph_in_reach(glyph),
        glyph_box(glyph) == Some(b),
    ensures
        i32::MIN < b.max.x - b.min.x <= i32::MAX,
        i32::MIN < b.max.y - b.min.y <= i32::MAX,
        !no_number(glyph_position(glyph).x),
        !no_number(glyph_position(glyph).y),
        glyph_origin_box(glyph) is Some,
        glyph_origin_box(glyph) == Some(o) ==> {
            let at = glyph_position(glyph);
            &&& i32::MIN < o.min.x + at.x.floor_spec() < i32::MAX
            &&& i32::MIN < o.min.y + at.y.floor_spec() < i32::MAX
            &&& i32::MIN < o.max.x + at.x.floor_spec() < i32::MAX
            &&& i32::MIN < o.max.y + at.y.floor_spec() < i32::MAX
        },
{
    let at = glyph_position(glyph);
    crate::number_laws::patterns_compare_as_numbers(at.x, at.x);
    crate::number_laws::patterns_compare_as_numbers(at.y, at.y);
}

/// A frame that only has to be redrawn can be processed wherever its glyphs lie.
pub proof fn unchanged_frames_can_be_processed<'font, V, H: SectionHasher>(
    state: BrushState<'font, V, H>,
)
    requires
        state.cache_drawing,
        state.last_draw == state.hasher.digest(crate::hash_laws::list_writes(state.buffer)),
        crate::draw_laws::same_all_positioned(state.last_pre, state.pre),
    ensures
        state.processable(),
{
    crate::draw_laws::lemma_all_compared(state.last_pre, state.pre);
}

/// A frame all whose glyphs lie near the origin can be processed.
pub proof fn frames_near_the_origin_can_be_processed<'font, V, H: SectionHasher>(
    state: BrushState<'font, V, H>,
)
    requires
        forall|h: SectionHash, i: int|
            #![trigger state.sections[h].positioned.glyphs[i]]
            state.keep.contains(h) && state.sections.contains_key(h) && 0 <= i
                < state.sections[h].positioned.glyphs.len() ==> glyph_near(
                state.sections[h].positioned.glyphs[i].glyph,
            ),
        forall|k: int, i: int|
            #![trigger state.pre[k].glyphs[i]]
            0 <= k < state.pre.len() && 0 <= i < state.pre[k].glyphs.len() ==> glyph_near(
                state.pre[k].glyphs[i].glyph,
            ),
    ensures
        state.processable(),
{
    assert forall|h: SectionHash|
        state.keep.contains(h) && #[trigger] state.sections.contains_key(
            h,
        ) implies crate::glyph::section_in_reach(state.sections[h].positioned) by {
        let section = state.sections[h].positioned;
        assert forall|i: int| 0 <= i < section.glyphs.len() implies crate::texture::glyph_in_reach(
            (#[trigger] section.glyphs[i]).glyph,
        ) by {
            assert(state.sections[h].positioned.glyphs[i] == section.glyphs[i]);
            glyphs_near_the_origin_are_in_reach(section.glyphs[i].glyph);
        }
    }
    assert forall|k: int| 0 <= k < state.pre.len() implies crate::glyph::section_in_reach(
        #[trigger] state.pre[k],
    ) by {
        let section = state.pre[k];
        assert forall|i: int| 0 <= i < section.glyphs.len() implies crate::texture::glyph_in_reach(
            (#[trigger] section.glyphs[i]).glyph,
        ) by {
            assert(state.pre[k].glyphs[i] == section.glyphs[i]);
            glyphs_near_the_origin_are_in_reach(section.glyphs[i].glyph);
        }
    }
}

/// Whether a glyph that has a box is used in a frame, by a section that is kept or by one that came
/// positioned.
pub open spec fn in_frame<'font, V, H>(
    state: BrushState<'font, V, H>,
    x: (usize, PositionedGlyph<'font>),
) -> bool {
    &&& glyph_box(x.1) is Some
    &&& {
        ||| exists|h: SectionHash, i: int|
            #![trigger state.sections[h].positioned.glyphs[i]]
            state.keep.contains(h) && state.sections.contains_key(h) && 0 <= i
                < state.sections[h].positioned.glyphs.len()
                && state.sections[h].positioned.glyphs[i].font_id.0 == x.0
                && state.sections[h].positioned.glyphs[i].glyph == x.1
        ||| exists|k: int, i: int|
            #![trigger state.pre[k].glyphs[i]]
            0 <= k < state.pre.len() && 0 <= i < state.pre[k].glyphs.len()
                && state.pre[k].glyphs[i].font_id.0 == x.0 && state.pre[k].glyphs[i].glyph == x.1
    }
}

/// Whether a glyph waits for the texture, or is used in the frame.
pub open spec fn wanted<'font, V, H>(
    state: BrushState<'font, V, H>,
    x: (usize, PositionedGlyph<'font>),
) -> bool {
    texture_queue(state.texture).contains(x) || in_frame(state, x)
}

proof fn lemma_queued_glyphs<'font>(
    queue: Seq<(usize, PositionedGlyph<'font>)>,
    glyphs: Seq<SectionGlyph<'font>>,
    right: spec_fn((usize, PositionedGlyph<'font>)) -> bool,
)
    requires
        forall|x: (usize, PositionedGlyph<'font>)| #[trigger] queue.contains(x) ==> right(x),
        forall|i: int|
            0 <= i < glyphs.len() && glyph_box((#[trigger] glyphs[i]).glyph) is Some ==> right(
                (glyphs[i].font_id.0, glyphs[i].glyph),
            ),
    ensures
        forall|x: (usize, PositionedGlyph<'font>)| #[trigger]
            crate::state::queue_glyphs(queue, glyphs).contains(x) ==> right(x),
        crate::state::queue_glyphs(queue, glyphs).len() <= queue.len() + glyphs.len(),
    decreases glyphs.len(),
{
    if glyphs.len() > 0 {
        let front = glyphs.drop_last();
        assert forall|i: int|
            0 <= i < front.len() && glyph_box((#[trigger] front[i]).glyph) is Some implies right(
            (front[i].font_id.0, front[i].glyph),
        ) by {
            assert(front[i] == glyphs[i]);
        }
        lemma_queued_glyphs(queue, front, right);
        let last = glyphs[glyphs.len() - 1];
        let before = crate::state::queue_glyphs(queue, front);
        let after = crate::state::queue_glyphs(queue, glyphs);
        assert forall|x: (usize, PositionedGlyph<'font>)| #[trigger]
            after.contains(x) implies right(x) by {
            let i = choose|i: int| 0 <= i < after.len() && after[i] == x;
            if i < before.len() {
                assert(before[i] == x);
                assert(before.contains(x));
            } else {
                assert(x == (last.font_id.0, last.glyph));
            }
        }
    }
}

proof fn lemma_queued_listed<'font, V>(
    queue: Seq<(usize, PositionedGlyph<'font>)>,
    sections: Map<SectionHash, GlyphedView<'font, V>>,
    hashes: Seq<SectionHash>,
    most: nat,
    right: spec_fn((usize, PositionedGlyph<'font>)) -> bool,
)
    requires
        forall|x: (usize, PositionedGlyph<'font>)| #[trigger] queue.contains(x) ==> right(x),
        forall|k: int, i: int|
            #![trigger sections[hashes[k]].positioned.glyphs[i]]
            0 <= k < hashes.len() && sections.contains_key(hashes[k]) && 0 <= i
                < sections[hashes[k]].positioned.glyphs.len() && glyph_box(
                sections[hashes[k]].positioned.glyphs[i].glyph,
            ) is Some ==> right(
                (
                    sections[hashes[k]].positioned.glyphs[i].font_id.0,
                    sections[hashes[k]].positioned.glyphs[i].glyph,
                ),
            ),
        forall|k: int|
            0 <= k < hashes.len() && sections.contains_key(#[trigger] hashes[k])
                ==> sections[hashes[k]].positioned.glyphs.len() <= most,
    ensures
        forall|x: (usize, PositionedGlyph<'font>)| #[trigger]
            crate::state::queue_listed(queue, sections, hashes).contains(x) ==> right(x),
        crate::state::queue_listed(queue, sections, hashes).len() <= queue.len() + hashes.len()
            * most,
    decreases hashes.len(),
{
    if hashes.len() > 0 {
        let front = hashes.drop_last();
        let last = hashes[hashes.len() - 1];
        assert forall|k: int, i: int|
            #![trigger sections[front[k]].positioned.glyphs[i]]
            0 <= k < front.len() && sections.contains_key(front[k]) && 0 <= i
                < sections[front[k]].positioned.glyphs.len() && glyph_box(
                sections[front[k]].positioned.glyphs[i].glyph,
            ) is Some implies right(
            (
                sections[front[k]].positioned.glyphs[i].font_id.0,
                sections[front[k]].positioned.glyphs[i].glyph,
            ),
        ) by {
            assert(front[k] == hashes[k]);
            assert(sections[hashes[k]].positioned.glyphs[i]
                == sections[front[k]].positioned.glyphs[i]);
        }
        assert forall|k: int|
            0 <= k < front.len() && sections.contains_key(
                #[trigger] front[k],
            ) implies sections[front[k]].positioned.glyphs.len() <= most by {
            assert(front[k] == hashes[k]);
        }
        lemma_queued_listed(queue, sections, front, most, right);
        assert(hashes.len() * most == front.len() * most + most) by (nonlinear_arith)
            requires
                hashes.len() == front.len() + 1,
        ;
        if sections.contains_key(last) {
            let before = crate::state::queue_listed(queue, sections, front);
            let glyphs = sections[last].positioned.glyphs;
            assert forall|i: int|
                0 <= i < glyphs.len() && glyph_box(
                    (#[trigger] glyphs[i]).glyph,
                ) is Some implies right((glyphs[i].font_id.0, glyphs[i].glyph)) by {
                assert(sections[hashes[hashes.len() - 1]].positioned.glyphs[i] == glyphs[i]);
            }
            lemma_queued_glyphs(before, glyphs, right);
            assert(sections.contains_key(hashes[hashes.len() - 1]));
        }
    }
}

proof fn lemma_queued_positioned<'font>(
    queue: Seq<(usize, PositionedGlyph<'font>)>,
    pre: Seq<SectionView<'font>>,
    most: nat,
    right: spec_fn((usize, PositionedGlyph<'font>)) -> bool,
)
    requires
        forall|x: (usize, PositionedGlyph<'font>)| #[trigger] queue.contains(x) ==> right(x),
        forall|k: int, i: int|
            #![trigger pre[k].glyphs[i]]
            0 <= k < pre.len() && 0 <= i < pre[k].glyphs.len() && glyph_box(
                pre[k].glyphs[i].glyph,
            ) is Some ==> right((pre[k].glyphs[i].font_id.0, pre[k].glyphs[i].glyph)),
        forall|k: int| 0 <= k < pre.len() ==> (#[trigger] pre[k]).glyphs.len() <= most,
    ensures
        forall|x: (usize, PositionedGlyph<'font>)| #[trigger]
            crate::state::queue_positioned(queue, pre).contains(x) ==> right(x),
        crate::state::queue_positioned(queue, pre).len() <= queue.len() + pre.len() * most,
    decreases pre.len(),
{
    if pre.len() > 0 {
        let front = pre.drop_last();
        let last = pre[pre.len() - 1];
        assert forall|k: int, i: int|
            #![trigger front[k].glyphs[i]]
            0 <= k < front.len() && 0 <= i < front[k].glyphs.len() && glyph_box(
                front[k].glyphs[i].glyph,
            ) is Some implies right((front[k].glyphs[i].font_id.0, front[k].glyphs[i].glyph)) by {
            assert(pre[k].glyphs[i] == front[k].glyphs[i]);
        }
        assert forall|k: int| 0 <= k < front.len() implies (#[trigger] front[k]).glyphs.len()
            <= most by {
            assert(front[k] == pre[k]);
        }
        lemma_queued_positioned(queue, front, most, right);
        assert(pre.len() * most == front.len() * most + most) by (nonlinear_arith)
            requires
                pre.len() == front.len() + 1,
        ;
        let before = crate::state::queue_positioned(queue, front);
        assert forall|i: int|
            0 <= i < last.glyphs.len() && glyph_box(
                (#[trigger] last.glyphs[i]).glyph,
            ) is Some implies right((last.glyphs[i].font_id.0, last.glyphs[i].glyph)) by {
            assert(pre[pre.len() - 1].glyphs[i] == last.glyphs[i]);
        }
        lemma_queued_glyphs(before, last.glyphs, right);
    }
}

/// Whether no section of a frame has more than `most` glyphs.
pub open spec fn sections_have_at_most<'font, V, H>(
    state: BrushState<'font, V, H>,
    most: nat,
) -> bool {
    &&& forall|h: SectionHash|
        state.keep.contains(h) && #[trigger] state.sections.contains_key(h)
            ==> state.sections[h].positioned.glyphs.len() <= most
    &&& forall|k: int| 0 <= k < state.pre.len() ==> (#[trigger] state.pre[k]).glyphs.len() <= most
}

proof fn lemma_wanted<'font, V, H>(
    state: BrushState<'font, V, H>,
    order: Seq<SectionHash>,
    most: nat,
)
    requires
        state.orders_kept(order),
        sections_have_at_most(state, most),
    ensures
        forall|x: (usize, PositionedGlyph<'font>)| #[trigger]
            state.frame_queue(order).contains(x) ==> wanted(state, x),
        state.frame_queue(order).len() <= texture_queue(state.texture).len() + (state.keep.len()
            + state.pre.len()) * most,
{
    let right = |x: (usize, PositionedGlyph<'font>)| wanted(state, x);
    let start = texture_queue(state.texture);
    assert forall|k: int, i: int|
        #![trigger state.sections[order[k]].positioned.glyphs[i]]
        0 <= k < order.len() && state.sections.contains_key(order[k]) && 0 <= i
            < state.sections[order[k]].positioned.glyphs.len() && glyph_box(
            state.sections[order[k]].positioned.glyphs[i].glyph,
        ) is Some implies right(
        (
            state.sections[order[k]].positioned.glyphs[i].font_id.0,
            state.sections[order[k]].positioned.glyphs[i].glyph,
        ),
    ) by {
        assert(order.to_set().contains(order[k]));
        let x = (
            state.sections[order[k]].positioned.glyphs[i].font_id.0,
            state.sections[order[k]].positioned.glyphs[i].glyph,
        );
        assert(in_frame(state, x));
    }
    assert forall|k: int|
        0 <= k < order.len() && state.sections.contains_key(
            #[trigger] order[k],
        ) implies state.sections[order[k]].positioned.glyphs.len() <= most by {
        assert(order.to_set().contains(order[k]));
    }
    lemma_queued_listed(start, state.sections, order, most, right);
    let listed = crate::state::queue_listed(start, state.sections, order);
    assert forall|k: int, i: int|
        #![trigger state.pre[k].glyphs[i]]
        0 <= k < state.pre.len() && 0 <= i < state.pre[k].glyphs.len() && glyph_box(
            state.pre[k].glyphs[i].glyph,
        ) is Some implies right((state.pre[k].glyphs[i].font_id.0, state.pre[k].glyphs[i].glyph)) by {
        assert(in_frame(state, (state.pre[k].glyphs[i].font_id.0, state.pre[k].glyphs[i].glyph)));
    }
    lemma_queued_positioned(listed, state.pre, most, right);
    order.unique_seq_to_set();
    assert(order.len() == state.keep.len());
    let (a, b) = (state.keep.len() as int, state.pre.len() as int);
    assert((a + b) * most == a * most + b * most) by (nonlinear_arith);
    assert(forall|x: (usize, PositionedGlyph<'font>)| right(x) == wanted(state, x));
}

/// What waits once a frame is queued is what waited before and the glyphs with a box of the
/// sections that are used in the frame, and nothing else.
pub proof fn frames_queue_what_they_use<'font, V, H>(
    state: BrushState<'font, V, H>,
    order: Seq<SectionHash>,
    most: nat,
    x: (usize, PositionedGlyph<'font>),
)
    requires
        state.orders_kept(order),
        sections_have_at_most(state, most),
    ensures
        state.frame_queue(order).contains(x) <==> wanted(state, x),
{
    lemma_wanted(state, order, most);
    crate::coherence::lemma_frame_is_queued(state, order);
    let start = texture_queue(state.texture);
    crate::coherence::lemma_queue_listed(start, state.sections, order);
    crate::coherence::lemma_queue_positioned(
        crate::state::queue_listed(start, state.sections, order),
        state.pre,
    );
}

/// Whether a box takes no more than a cell, with 2 pixels of padding, and 3 of alignment.
pub open spec fn fits_cell(b: Rectangle<i32>, width: int, height: int) -> bool {
    &&& b.min.x <= b.max.x && b.max.x - b.min.x + 5 <= width
    &&& b.min.y <= b.max.y && b.max.y - b.min.y + 5 <= height
}

/// A frame is never refused if the texture can be divided into as many cells as the frame has
/// glyphs, with those that wait, and each glyph fits into a cell.
pub proof fn frames_with_room_are_drawn<'font, V: Clone, H: SectionHasher, F: Fn(GlyphVertex) -> V>(
    state: BrushState<'font, V, H>,
    after: BrushState<'font, V, H>,
    outcome: Result<BrushAction<V>, BrushError>,
    to_vertex: F,
    most: nat,
    width: int,
    height: int,
)
    requires
        state.processed(after, outcome, to_vertex),
        sections_have_at_most(state, most),
        forall|x: (usize, PositionedGlyph<'font>)| #[trigger]
            wanted(state, x) ==> (glyph_box(x.1) matches Some(b) && fits_cell(b, width, height)),
        0 < width < texture_attributes(state.texture).width,
        0 < height < texture_attributes(state.texture).height,
        texture_queue(state.texture).len() + (state.keep.len() + state.pre.len()) * most <= (
        texture_attributes(state.texture).width as int / width) * (texture_attributes(
            state.texture,
        ).height as int / height),
    ensures
        outcome is Ok,
{
    let attributes = texture_attributes(state.texture);
    assert forall|order: Seq<SectionHash>| #[trigger]
        state.orders_kept(order) implies crate::texture::queue_fits(
        state.frame_queue(order),
        attributes,
    ) by {
        lemma_wanted(state, order, most);
        let queue = state.frame_queue(order);
        assert forall|i: int| 0 <= i < queue.len() implies (glyph_box(
            (#[trigger] queue[i]).1,
        ) matches Some(b) && {
            &&& b.min.x <= b.max.x && crate::texture::side_taken(b.min.x, b.max.x, attributes)
                <= width
            &&& b.min.y <= b.max.y && crate::texture::side_taken(b.min.y, b.max.y, attributes)
                <= height
        }) by {
            assert(queue.contains(queue[i]));
            assert(wanted(state, queue[i]));
        }
        let kinds = queue.map_values(
            |item: (usize, PositionedGlyph<'_>)| crate::texture::glyph_kind(item),
        );
        kinds.lemma_cardinality_of_set();
        let needed = crate::texture::drawings_needed(queue) as int;
        assert(needed <= queue.len());
        let (in_row, in_column) = (
            attributes.width as int / width,
            attributes.height as int / height,
        );
        vstd::arithmetic::div_mod::lemma_fundamental_div_mod(attributes.width as int, width);
        vstd::arithmetic::div_mod::lemma_fundamental_div_mod(attributes.height as int, height);
        assert(in_row >= 1) by (nonlinear_arith)
            requires
                attributes.width as int == width * in_row + attributes.width as int % width,
                (attributes.width as int % width) < width,
                0 < width < attributes.width,
        ;
        let rows = (needed + in_row - 1) / in_row;
        vstd::arithmetic::div_mod::lemma_fundamental_div_mod(needed + in_row - 1, in_row);
        assert(rows <= in_column) by (nonlinear_arith)
            requires
                needed + in_row - 1 == in_row * rows + (needed + in_row - 1) % in_row,
                0 <= (needed + in_row - 1) % in_row,
                needed <= in_row * in_column,
                in_row >= 1,
        ;
        assert(rows * height <= attributes.height) by (nonlinear_arith)
            requires
                rows <= in_column,
                height > 0,
                attributes.height as int == height * in_column + attributes.height as int % height,
                0 <= attributes.height as int % height,
        ;
        assert(crate::texture::fits_cells(queue, attributes, width, height));
    }
}

proof fn lemma_rows<'font>(
    queue: Seq<(usize, PositionedGlyph<'font>)>,
    attributes: TextureAttributes,
    height: int,
)
    requires
        0 <= height,
        forall|i: int|
            0 <= i < queue.len() ==> (glyph_box((#[trigger] queue[i]).1) matches Some(b)
                && b.min.y <= b.max.y && b.max.y - b.min.y + 5 <= height),
    ensures
        crate::texture::rows_taken(queue, attributes) <= queue.len() * height,
    decreases queue.len(),
{
    if queue.len() > 0 {
        let front = queue.drop_last();
        assert forall|i: int| 0 <= i < front.len() implies (glyph_box(
            (#[trigger] front[i]).1,
        ) matches Some(b) && b.min.y <= b.max.y && b.max.y - b.min.y + 5 <= height) by {
            assert(front[i] == queue[i]);
        }
        lemma_rows(front, attributes, height);
        assert(queue[queue.len() - 1] == queue.last());
        assert(queue.len() * height == front.len() * height + height) by (nonlinear_arith)
            requires
                queue.len() == front.len() + 1,
        ;
    }
}

/// A frame is never refused if its glyphs, with those that wait, are narrower than the texture and
/// find room there one above the other.
pub proof fn frames_that_can_be_stacked_are_drawn<'font, V: Clone, H: SectionHasher, F: Fn(
    GlyphVertex,
) -> V>(
    state: BrushState<'font, V, H>,
    after: BrushState<'font, V, H>,
    outcome: Result<BrushAction<V>, BrushError>,
    to_vertex: F,
    most: nat,
    width: int,
    height: int,
)
    requires
        state.processed(after, outcome, to_vertex),
        sections_have_at_most(state, most),
        forall|x: (usize, PositionedGlyph<'font>)| #[trigger]
            wanted(state, x) ==> (glyph_box(x.1) matches Some(b) && fits_cell(b, width, height)),
        0 < width < texture_attributes(state.texture).width,
        0 < height < texture_attributes(state.texture).height,
        (texture_queue(state.texture).len() + (state.keep.len() + state.pre.len()) * most) * height
            <= texture_attributes(state.texture).height,
    ensures
        outcome is Ok,
{
    let attributes = texture_attributes(state.texture);
    assert forall|order: Seq<SectionHash>| #[trigger]
        state.orders_kept(order) implies crate::texture::queue_fits(
        state.frame_queue(order),
        attributes,
    ) by {
        lemma_wanted(state, order, most);
        let queue = state.frame_queue(order);
        assert forall|i: int| 0 <= i < queue.len() implies (glyph_box(
            (#[trigger] queue[i]).1,
        ) matches Some(b) && fits_cell(b, width, height)) by {
            assert(queue.contains(queue[i]));
            assert(wanted(state, queue[i]));
        }
        lemma_rows(queue, attributes, height);
        let bound = texture_queue(state.texture).len() + (state.keep.len() + state.pre.len())
            * most;
        assert(queue.len() * height <= bound * height) by (nonlinear_arith)
            requires
                queue.len() <= bound,
                height > 0,
        ;
        assert(crate::texture::fits_stacked(queue, attributes));
    }
}

/// A frame whose glyphs are all in the texture already, with those that wait, is never refused,
/// and nothing moves in the texture when it is drawn.
pub proof fn held_frames_are_drawn_in_place<'font, V: Clone, H: SectionHasher, F: Fn(
    GlyphVertex,
) -> V>(
    state: BrushState<'font, V, H>,
    after: BrushState<'font, V, H>,
    outcome: Result<BrushAction<V>, BrushError>,
    to_vertex: F,
)
    requires
        state.processed(after, outcome, to_vertex),
        forall|x: (usize, PositionedGlyph<'font>)| #[trigger]
            wanted(state, x) ==> texture_rects(state.texture).contains_key(x),
    ensures
        outcome is Ok,
        texture_rects(after.texture) == texture_rects(state.texture),
{
    let rects = texture_rects(state.texture);
    assert forall|h: SectionHash|
        state.keep.contains(h) && #[trigger] state.sections.contains_key(
            h,
        ) implies crate::state::section_held(state.sections[h].positioned, rects) by {
        let section = state.sections[h].positioned;
        assert forall|i: int|
            0 <= i < section.glyphs.len() implies !crate::texture::glyph_missed(
            rects,
            (#[trigger] section.glyphs[i]).font_id.0,
            section.glyphs[i].glyph,
        ) by {
            let x = (section.glyphs[i].font_id.0, section.glyphs[i].glyph);
            assert(state.sections[h].positioned.glyphs[i] == section.glyphs[i]);
            if glyph_box(x.1) is Some {
                assert(in_frame(state, x));
                assert(wanted(state, x));
            }
        }
    }
    assert forall|k: int| 0 <= k < state.pre.len() implies crate::state::section_held(
        #[trigger] state.pre[k],
        rects,
    ) by {
        let section = state.pre[k];
        assert forall|i: int|
            0 <= i < section.glyphs.len() implies !crate::texture::glyph_missed(
            rects,
            (#[trigger] section.glyphs[i]).font_id.0,
            section.glyphs[i].glyph,
        ) by {
            let x = (section.glyphs[i].font_id.0, section.glyphs[i].glyph);
            assert(state.pre[k].glyphs[i] == section.glyphs[i]);
            if glyph_box(x.1) is Some {
                assert(in_frame(state, x));
                assert(wanted(state, x));
            }
        }
    }
    let queue = texture_queue(state.texture);
    assert forall|i: int| 0 <= i < queue.len() implies rects.contains_key(#[trigger] queue[i]) by {
        assert(queue.contains(queue[i]));
        assert(wanted(state, queue[i]));
    }
    assert(state.nothing_lacking());
}

/// A frame is not drawn if the texture lacks a glyph of it, and every glyph that it lacks is too
/// large for it with 2 pixels of padding.
pub proof fn frames_too_large_are_not_drawn<'font, V: Clone, H: SectionHasher, F: Fn(
    GlyphVertex,
) -> V>(
    state: BrushState<'font, V, H>,
    after: BrushState<'font, V, H>,
    outcome: Result<BrushAction<V>, BrushError>,
    to_vertex: F,
    most: nat,
    lacked: (usize, PositionedGlyph<'font>),
)
    requires
        state.processed(after, outcome, to_vertex),
        sections_have_at_most(state, most),
        in_frame(state, lacked),
        !texture_rects(state.texture).contains_key(lacked),
        forall|x: (usize, PositionedGlyph<'font>)| #[trigger]
            wanted(state, x) && !texture_rects(state.texture).contains_key(x) ==> (glyph_box(
                x.1,
            ) matches Some(b) && b.min.x <= b.max.x && b.min.y <= b.max.y && (b.max.x - b.min.x + 2
                >= texture_attributes(state.texture).width || b.max.y - b.min.y + 2
                >= texture_attributes(state.texture).height)),
    ensures
        !(outcome matches Ok(BrushAction::Draw(_))),
{
    let attributes = texture_attributes(state.texture);
    let rects = texture_rects(state.texture);
    assert(state.any_text()) by {
        if exists|h: SectionHash, i: int|
            #![trigger state.sections[h].positioned.glyphs[i]]
            state.keep.contains(h) && state.sections.contains_key(h) && 0 <= i
                < state.sections[h].positioned.glyphs.len()
                && state.sections[h].positioned.glyphs[i].font_id.0 == lacked.0
                && state.sections[h].positioned.glyphs[i].glyph == lacked.1 {
            let (h, i) = choose|h: SectionHash, i: int|
                #![trigger state.sections[h].positioned.glyphs[i]]
                state.keep.contains(h) && state.sections.contains_key(h) && 0 <= i
                    < state.sections[h].positioned.glyphs.len()
                    && state.sections[h].positioned.glyphs[i].font_id.0 == lacked.0
                    && state.sections[h].positioned.glyphs[i].glyph == lacked.1;
            assert(state.sections.contains_key(h));
        } else {
            let (k, i) = choose|k: int, i: int|
                #![trigger state.pre[k].glyphs[i]]
                0 <= k < state.pre.len() && 0 <= i < state.pre[k].glyphs.len()
                    && state.pre[k].glyphs[i].font_id.0 == lacked.0 && state.pre[k].glyphs[i].glyph
                    == lacked.1;
            assert(state.pre[k].glyphs.len() > 0);
        }
    }
    assert forall|order: Seq<SectionHash>| #[trigger]
        state.orders_kept(order) implies crate::texture::queue_too_large(
        state.frame_queue(order),
        state.rects(),
        attributes,
    ) by {
        frames_queue_what_they_use(state, order, most, lacked);
        lemma_wanted(state, order, most);
        let queue = state.frame_queue(order);
        let i = choose|i: int| 0 <= i < queue.len() && queue[i] == lacked;
        assert(!rects.contains_key(queue[i]));
        assert forall|j: int|
            0 <= j < queue.len() && !rects.contains_key(
                #[trigger] queue[j],
            ) implies crate::texture::glyph_too_large(queue[j].1, attributes) by {
            assert(queue.contains(queue[j]));
            assert(wanted(state, queue[j]));
        }
    }
    assert(state.frame_too_large());
}

/// A drawing that is handed out lies within the texture and has one byte for each pixel.
pub proof fn drawings_lie_within_the_texture<F: FnMut(rusttype::Rect<u32>, &[u8])>(
    uploader: F,
    attributes: TextureAttributes,
)
    requires
        crate::texture::upload_made(uploader, attributes),
    ensures
        exists|rect: rusttype::Rect<u32>, data: &[u8]|
            {
                &&& #[trigger] call_ensures(uploader, (rect, data), ())
                &&& rect_region(rect).min.x <= rect_region(rect).max.x <= attributes.width
                &&& rect_region(rect).min.y <= rect_region(rect).max.y <= attributes.height
                &&& data@.len() == (rect_region(rect).max.x - rect_region(rect).min.x) * (
                rect_region(rect).max.y - rect_region(rect).min.y)
            },
{
}

/// A section whose vertices are dropped stays as it is positioned.
pub proof fn fresh_sections_have_no_vertices<'font, V>(section: SectionView<'font>)
    ensures
        GlyphedView::<V>::fresh(section).positioned == section,
        GlyphedView::<V>::fresh(section).vertices.len() == 0,
{
}

/// A texture can be built with attributes of any size, and keeps all but the use of threads.
pub proof fn built_textures_match(
    attributes: TextureAttributes,
    built: TextureAttributes,
    size: (u32, u32),
)
    requires
        attributes.with_size(size.0, size.1).built_as(built),
    ensures
        built.width == size.0,
        built.height == size.1,
        built.scale_tolerance == attributes.scale_tolerance,
        built.position_tolerance == attributes.position_tolerance,
        built.pad_glyphs == attributes.pad_glyphs,
        built.align_4x4 == attributes.align_4x4,
        built.multithread ==> attributes.multithread,
{
}

} // verus!
