//! What is drawn for a frame, glyph by glyph, and when a frame is drawn again.
use crate::brush::{BrushAction, BrushError};
use crate::float32::Float32;
use crate::geometry::Rectangle;
use crate::glyph::{SectionGlyph, SectionView};
use crate::glyphed::{vertices_for, GlyphVertex, GlyphedView, TextureRects};
use crate::hash_laws::{list_writes, told};
use crate::hashing::{SectionHash, SectionHasher};
use crate::number_laws::{equal, no_number};
use crate::state::BrushState;
use crate::texture::{
    glyph_box, glyph_number, glyph_position, glyph_scale, texture_rects,
};
use vstd::prelude::*;

verus! {

/// Whether pixels meet bounds: on no side do they lie beyond, where a NaN bounds nothing.
pub open spec fn meets(pixels: Rectangle<i32>, bounds: Rectangle<Float32>) -> bool {
    &&& no_number(bounds.max.x) || crate::geometry::cast_value(pixels.min.x) <= bounds.max.x.value()
    &&& no_number(bounds.max.y) || crate::geometry::cast_value(pixels.min.y) <= bounds.max.y.value()
    &&& no_number(bounds.min.x) || crate::geometry::cast_value(pixels.max.x) >= bounds.min.x.value()
    &&& no_number(bounds.min.y) || crate::geometry::cast_value(pixels.max.y) >= bounds.min.y.value()
}

/// Where a texture shows the `i`th glyph of a section.
pub open spec fn place_of<'font>(
    section: SectionView<'font>,
    rects: TextureRects<'font>,
    i: int,
) -> crate::texture::TextureCoords {
    rects[(section.glyphs[i].font_id.0, section.glyphs[i].glyph)]
}

/// Whether the `i`th glyph of a section can be seen: it has a box, the texture holds it, and the
/// pixels where it is shown meet the bounds.
pub open spec fn seen<'font>(
    section: SectionView<'font>,
    rects: TextureRects<'font>,
    i: int,
) -> bool {
    &&& glyph_box(section.glyphs[i].glyph) is Some
    &&& rects.contains_key((section.glyphs[i].font_id.0, section.glyphs[i].glyph))
    &&& meets(place_of(section, rects, i).1, section.bounds)
}

/// Whether a vertex is made from the `i`th glyph of a section: from where the texture shows it,
/// from its own colour, and from the bounds and the depth of the section.
pub open spec fn made_from<'font>(
    vertex: GlyphVertex,
    section: SectionView<'font>,
    rects: TextureRects<'font>,
    i: int,
) -> bool {
    &&& vertex.tex_coords == place_of(section, rects, i).0
    &&& vertex.pixel_coords == place_of(section, rects, i).1
    &&& vertex.color == section.glyphs[i].color
    &&& vertex.bounds == section.bounds
    &&& vertex.z == section.z
}

/// Whether a vertex is what `to_vertex` makes from the `i`th glyph of a section.
pub open spec fn made_for<'font, V, F: Fn(GlyphVertex) -> V>(
    to_vertex: F,
    section: SectionView<'font>,
    rects: TextureRects<'font>,
    i: int,
    own: V,
) -> bool {
    exists|vertex: GlyphVertex|
        made_from(vertex, section, rects, i) && #[trigger] call_ensures(to_vertex, (vertex,), own)
}

/// Whether `indices` are those of the glyphs of a section that can be seen, in order.
pub open spec fn all_seen<'font>(
    section: SectionView<'font>,
    rects: TextureRects<'font>,
    indices: Seq<int>,
) -> bool {
    &&& forall|j: int|
        0 <= j < indices.len() ==> 0 <= #[trigger] indices[j] < section.glyphs.len() && seen(
            section,
            rects,
            indices[j],
        )
    &&& forall|j: int, k: int|
        0 <= j < k < indices.len() ==> #[trigger] indices[j] < #[trigger] indices[k]
    &&& forall|i: int|
        0 <= i < section.glyphs.len() && #[trigger] seen(section, rects, i) ==> indices.contains(i)
}

/// Pixels lie totally outside of bounds just where they do not meet them.
pub proof fn pixels_outside_do_not_meet(pixels: Rectangle<i32>, bounds: Rectangle<Float32>)
    ensures
        crate::geometry::outside_bounds(pixels, bounds) <==> !meets(pixels, bounds),
{
    crate::number_laws::patterns_compare_as_numbers(bounds.max.x, bounds.max.x);
    crate::number_laws::patterns_compare_as_numbers(bounds.max.y, bounds.max.y);
    crate::number_laws::patterns_compare_as_numbers(bounds.min.x, bounds.min.x);
    crate::number_laws::patterns_compare_as_numbers(bounds.min.y, bounds.min.y);
}

/// What vertices are made from for a section, with the glyphs that they are made for.
proof fn lemma_seen<'font>(section: SectionView<'font>, rects: TextureRects<'font>) -> (indices: Seq<
    int,
>)
    ensures
        all_seen(section, rects, indices),
        vertices_for(section, rects).len() == indices.len(),
        forall|j: int|
            0 <= j < indices.len() ==> made_from(
                #[trigger] vertices_for(section, rects)[j],
                section,
                rects,
                indices[j],
            ),
    decreases section.glyphs.len(),
{
    if section.glyphs.len() == 0 {
        Seq::empty()
    } else {
        let front = SectionView { glyphs: section.glyphs.drop_last(), ..section };
        let n = section.glyphs.len() - 1;
        let before = lemma_seen(front, rects);
        assert forall|i: int| 0 <= i < n implies #[trigger] seen(section, rects, i) == seen(
            front,
            rects,
            i,
        ) && place_of(section, rects, i) == place_of(front, rects, i) && section.glyphs[i]
            == front.glyphs[i] by {}
        pixels_outside_do_not_meet(place_of(section, rects, n).1, section.bounds);
        assert(section.glyphs.last() == section.glyphs[n]);
        let list = vertices_for(section, rects);
        let shorter = vertices_for(front, rects);
        if seen(section, rects, n) {
            let indices = before.push(n);
            assert(list.len() == shorter.len() + 1);
            assert forall|i: int|
                0 <= i < section.glyphs.len() && #[trigger] seen(
                    section,
                    rects,
                    i,
                ) implies indices.contains(i) by {
                if i < n {
                    assert(seen(front, rects, i));
                    let j = choose|j: int| 0 <= j < before.len() && before[j] == i;
                    assert(indices[j] == i);
                } else {
                    assert(indices[before.len() as int] == i);
                }
            }
            assert forall|j: int| 0 <= j < indices.len() implies made_from(
                #[trigger] list[j],
                section,
                rects,
                indices[j],
            ) by {
                if j < before.len() {
                    assert(list[j] == shorter[j]);
                    assert(seen(section, rects, before[j]) == seen(front, rects, before[j]));
                }
            }
            assert forall|j: int| 0 <= j < indices.len() implies 0 <= #[trigger] indices[j]
                < section.glyphs.len() && seen(section, rects, indices[j]) by {
                if j < before.len() {
                    assert(seen(section, rects, before[j]) == seen(front, rects, before[j]));
                }
            }
            indices
        } else {
            assert(list == shorter);
            assert forall|j: int| 0 <= j < before.len() implies made_from(
                #[trigger] list[j],
                section,
                rects,
                before[j],
            ) by {
                assert(seen(section, rects, before[j]) == seen(front, rects, before[j]));
            }
            assert forall|j: int| 0 <= j < before.len() implies 0 <= #[trigger] before[j]
                < section.glyphs.len() && seen(section, rects, before[j]) by {
                assert(seen(section, rects, before[j]) == seen(front, rects, before[j]));
            }
            before
        }
    }
}

/// The vertices that are made for a section are one for each of its glyphs that can be seen, in
/// order: each is what `to_vertex` makes from that glyph's own colour, the place where the texture
/// shows it, and the bounds and the depth of the section.
pub proof fn sections_are_drawn_glyph_by_glyph<'font, V, F: Fn(GlyphVertex) -> V>(
    before: GlyphedView<'font, V>,
    after: GlyphedView<'font, V>,
    rects: TextureRects<'font>,
    to_vertex: F,
)
    requires
        before.vertices.len() == 0,
        after.ensured_from(before, rects, to_vertex),
    ensures
        after.positioned == before.positioned,
        exists|indices: Seq<int>|
            {
                &&& #[trigger] all_seen(before.positioned, rects, indices)
                &&& after.vertices.len() == indices.len()
                &&& forall|j: int|
                    0 <= j < indices.len() ==> made_for(
                        to_vertex,
                        before.positioned,
                        rects,
                        indices[j],
                        #[trigger] after.vertices[j],
                    )
            },
{
    let indices = lemma_seen(before.positioned, rects);
    let list = vertices_for(before.positioned, rects);
    assert forall|j: int| 0 <= j < indices.len() implies made_for(
        to_vertex,
        before.positioned,
        rects,
        indices[j],
        #[trigger] after.vertices[j],
    ) by {
        assert(made_from(list[j], before.positioned, rects, indices[j]));
        assert(call_ensures(to_vertex, (list[j],), after.vertices[j]));
    }
    assert(all_seen(before.positioned, rects, indices));
}

proof fn lemma_all_indices(indices: Seq<int>, n: int)
    requires
        0 <= n,
        forall|j: int| 0 <= j < indices.len() ==> 0 <= #[trigger] indices[j] < n,
        forall|j: int, k: int|
            0 <= j < k < indices.len() ==> #[trigger] indices[j] < #[trigger] indices[k],
        forall|i: int| 0 <= i < n ==> #[trigger] indices.contains(i),
    ensures
        indices.len() == n,
        forall|j: int| 0 <= j < n ==> #[trigger] indices[j] == j,
    decreases n,
{
    if n > 0 {
        assert(indices.contains(n - 1));
        let m = choose|j: int| 0 <= j < indices.len() && indices[j] == n - 1;
        if m < indices.len() - 1 {
            assert(indices[m] < indices[indices.len() - 1]);
        }
        let front = indices.drop_last();
        assert forall|j: int| 0 <= j < front.len() implies 0 <= #[trigger] front[j] < n - 1 by {
            assert(indices[j] < indices[m]);
        }
        assert forall|i: int| 0 <= i < n - 1 implies #[trigger] front.contains(i) by {
            assert(indices.contains(i));
            let j = choose|j: int| 0 <= j < indices.len() && indices[j] == i;
            assert(front[j] == i);
        }
        lemma_all_indices(front, n - 1);
        assert forall|j: int| 0 <= j < n implies #[trigger] indices[j] == j by {
            if j < n - 1 {
                assert(front[j] == indices[j]);
            }
        }
    } else if indices.len() > 0 {
        assert(0 <= indices[0] < n);
    }
}

/// A section all whose glyphs can be seen has as many vertices as glyphs, and the vertices are
/// made from the glyphs one by one.
pub proof fn sections_in_sight_are_drawn_whole<'font, V, F: Fn(GlyphVertex) -> V>(
    before: GlyphedView<'font, V>,
    after: GlyphedView<'font, V>,
    rects: TextureRects<'font>,
    to_vertex: F,
)
    requires
        before.vertices.len() == 0,
        after.ensured_from(before, rects, to_vertex),
        forall|i: int|
            0 <= i < before.positioned.glyphs.len() ==> #[trigger] seen(
                before.positioned,
                rects,
                i,
            ),
    ensures
        after.vertices.len() == before.positioned.glyphs.len(),
        forall|i: int|
            0 <= i < after.vertices.len() ==> made_for(
                to_vertex,
                before.positioned,
                rects,
                i,
                #[trigger] after.vertices[i],
            ),
{
    sections_are_drawn_glyph_by_glyph(before, after, rects, to_vertex);
    let indices = choose|indices: Seq<int>|
        {
            &&& #[trigger] all_seen(before.positioned, rects, indices)
            &&& after.vertices.len() == indices.len()
            &&& forall|j: int|
                0 <= j < indices.len() ==> made_for(
                    to_vertex,
                    before.positioned,
                    rects,
                    indices[j],
                    #[trigger] after.vertices[j],
                )
        };
    let n = before.positioned.glyphs.len() as int;
    assert forall|i: int| 0 <= i < n implies #[trigger] indices.contains(i) by {
        assert(seen(before.positioned, rects, i));
    }
    lemma_all_indices(indices, n);
    assert forall|i: int| 0 <= i < after.vertices.len() implies made_for(
        to_vertex,
        before.positioned,
        rects,
        i,
        #[trigger] after.vertices[i],
    ) by {
        assert(indices[i] == i);
    }
}

/// The section that is drawn as the `k`th of a frame: the queued ones come first, and then those
/// that came positioned.
pub open spec fn drawn_section<'font, V, H>(
    state: BrushState<'font, V, H>,
    k: int,
) -> SectionView<'font> {
    if k < state.buffer.len() {
        state.sections[state.buffer[k]].positioned
    } else {
        state.pre[k - state.buffer.len()]
    }
}

/// Whether `origins` names the glyphs of a frame that can be seen, each by its section and its
/// place there, in the order of the sections and of the glyphs in them.
pub open spec fn names_seen<'font, V, H>(
    state: BrushState<'font, V, H>,
    rects: TextureRects<'font>,
    sections: int,
    origins: Seq<(int, int)>,
) -> bool {
    &&& forall|j: int|
        0 <= j < origins.len() ==> {
            &&& 0 <= (#[trigger] origins[j]).0 < sections
            &&& 0 <= origins[j].1 < drawn_section(state, origins[j].0).glyphs.len()
            &&& seen(drawn_section(state, origins[j].0), rects, origins[j].1)
        }
    &&& forall|j: int, l: int|
        0 <= j < l < origins.len() ==> (#[trigger] origins[j]).0 < (#[trigger] origins[l]).0 || (
        origins[j].0 == origins[l].0 && origins[j].1 < origins[l].1)
    &&& forall|k: int, i: int|
        0 <= k < sections && 0 <= i < drawn_section(state, k).glyphs.len() && #[trigger] seen(
            drawn_section(state, k),
            rects,
            i,
        ) ==> origins.contains((k, i))
}

/// Whether `drawn` is a vertex for the `i`th glyph of the `k`th section of a frame. It is what
/// `to_vertex` makes from that glyph, or a clone of that; but for a queued section that had
/// vertices already it can be a clone of the vertex that was made from the glyph then.
pub open spec fn vertex_of<'font, V: Clone, H, F: Fn(GlyphVertex) -> V>(
    state: BrushState<'font, V, H>,
    rects: TextureRects<'font>,
    to_vertex: F,
    k: int,
    i: int,
    drawn: V,
) -> bool {
    let section = drawn_section(state, k);
    if k >= state.buffer.len() {
        made_for(to_vertex, section, rects, i, drawn)
    } else {
        let known = state.sections[state.buffer[k]];
        ||| exists|own: V| #[trigger]
            made_for(to_vertex, section, rects, i, own) && cloned(own, drawn)
        ||| exists|m: int|
            0 <= m < known.vertices.len() && m < known.drawn.len() && made_from(
                known.drawn[m],
                section,
                rects,
                i,
            ) && cloned(#[trigger] known.vertices[m], drawn)
    }
}

/// Whether one more section, with the glyphs of it that can be seen, makes the list of those of
/// the frame longer.
proof fn lemma_one_more_section<'font, V, H>(
    state: BrushState<'font, V, H>,
    rects: TextureRects<'font>,
    k: int,
    origins: Seq<(int, int)>,
    indices: Seq<int>,
)
    requires
        0 <= k,
        names_seen(state, rects, k, origins),
        all_seen(drawn_section(state, k), rects, indices),
    ensures
        names_seen(
            state,
            rects,
            k + 1,
            origins + Seq::new(indices.len(), |j: int| (k, indices[j])),
        ),
{
    let more = Seq::new(indices.len(), |j: int| (k, indices[j]));
    let all = origins + more;
    let n = origins.len() as int;
    assert forall|j: int| 0 <= j < all.len() implies {
        &&& 0 <= (#[trigger] all[j]).0 < k + 1
        &&& 0 <= all[j].1 < drawn_section(state, all[j].0).glyphs.len()
        &&& seen(drawn_section(state, all[j].0), rects, all[j].1)
    } by {
        if j < n {
            assert(all[j] == origins[j]);
        } else {
            assert(all[j] == more[j - n]);
            assert(seen(drawn_section(state, k), rects, indices[j - n]));
        }
    }
    assert forall|j: int, l: int| 0 <= j < l < all.len() implies (#[trigger] all[j]).0
        < (#[trigger] all[l]).0 || (all[j].0 == all[l].0 && all[j].1 < all[l].1) by {
        if l < n {
            assert(all[j] == origins[j] && all[l] == origins[l]);
        } else {
            assert(all[l] == more[l - n]);
            if j < n {
                assert(all[j] == origins[j]);
            } else {
                assert(all[j] == more[j - n]);
                assert(indices[j - n] < indices[l - n]);
            }
        }
    }
    assert forall|q: int, i: int|
        0 <= q < k + 1 && 0 <= i < drawn_section(state, q).glyphs.len() && #[trigger] seen(
            drawn_section(state, q),
            rects,
            i,
        ) implies all.contains((q, i)) by {
        if q < k {
            assert(origins.contains((q, i)));
            let j = choose|j: int| 0 <= j < origins.len() && origins[j] == (q, i);
            assert(all[j] == (q, i));
        } else {
            assert(indices.contains(i));
            let j = choose|j: int| 0 <= j < indices.len() && indices[j] == i;
            assert(all[n + j] == more[j]);
        }
    }
}

/// The glyphs that the vertices of the first `n` queued sections are for.
proof fn lemma_listed<'font, V: Clone, H, F: Fn(GlyphVertex) -> V>(
    state: BrushState<'font, V, H>,
    sections: Map<SectionHash, GlyphedView<'font, V>>,
    rects: TextureRects<'font>,
    to_vertex: F,
    n: int,
) -> (origins: Seq<(int, int)>)
    requires
        0 <= n <= state.buffer.len(),
        forall|k: int|
            0 <= k < state.buffer.len() ==> listed_right(
                state,
                sections,
                rects,
                to_vertex,
                #[trigger] state.buffer[k],
            ),
    ensures
        names_seen(state, rects, n, origins),
        crate::state::listed_vertices(sections, state.buffer.take(n)).len() == origins.len(),
        forall|j: int, drawn: V|
            0 <= j < origins.len() && #[trigger] cloned(
                crate::state::listed_vertices(sections, state.buffer.take(n))[j],
                drawn,
            ) ==> vertex_of(state, rects, to_vertex, origins[j].0, origins[j].1, drawn),
    decreases n,
{
    if n == 0 {
        assert(state.buffer.take(0) =~= Seq::empty());
        Seq::empty()
    } else {
        let k = n - 1;
        let h = state.buffer[k];
        let before = lemma_listed(state, sections, rects, to_vertex, k);
        assert(listed_right(state, sections, rects, to_vertex, h));
        let section = drawn_section(state, k);
        let indices = lemma_seen(section, rects);
        lemma_one_more_section(state, rects, k, before, indices);
        let more = Seq::new(indices.len(), |j: int| (k, indices[j]));
        let origins = before + more;
        let shorter = crate::state::listed_vertices(sections, state.buffer.take(k));
        let list = crate::state::listed_vertices(sections, state.buffer.take(n));
        assert(state.buffer.take(n).drop_last() =~= state.buffer.take(k));
        assert(state.buffer.take(n).last() == h);
        assert(list == shorter + sections[h].vertices);
        assert forall|j: int, drawn: V|
            0 <= j < origins.len() && #[trigger] cloned(list[j], drawn) implies vertex_of(
            state,
            rects,
            to_vertex,
            origins[j].0,
            origins[j].1,
            drawn,
        ) by {
            if j < before.len() {
                assert(list[j] == shorter[j]);
                assert(origins[j] == before[j]);
                assert(cloned(shorter[j], drawn));
            } else {
                let m = j - before.len();
                assert(origins[j] == more[m]);
                let own = sections[h].vertices[m];
                let vertex = vertices_for(section, rects)[m];
                assert(list[j] == own);
                assert(made_from(vertex, section, rects, indices[m]));
                assert(sections[h].drawn[m] == vertex);
                if call_ensures(to_vertex, (vertex,), own) {
                    assert(made_for(to_vertex, section, rects, indices[m], own));
                } else {
                    let known = state.sections[h];
                    assert(known.drawn[m] == vertex);
                    assert(cloned(known.vertices[m], drawn));
                }
            }
        }
        origins
    }
}

/// Whether the vertices of a queued section are right: made from its glyphs as the texture shows
/// them, by `to_vertex` or before.
spec fn listed_right<'font, V, H, F: Fn(GlyphVertex) -> V>(
    state: BrushState<'font, V, H>,
    sections: Map<SectionHash, GlyphedView<'font, V>>,
    rects: TextureRects<'font>,
    to_vertex: F,
    h: SectionHash,
) -> bool {
    &&& sections[h].drawn == vertices_for(state.sections[h].positioned, rects)
    &&& sections[h].vertices.len() == sections[h].drawn.len()
    &&& sections[h] == state.sections[h] || crate::glyphed::made_by(
        to_vertex,
        sections[h].drawn,
        sections[h].vertices,
    )
}

/// The glyphs that the vertices of the first `n` sections that came positioned are for, behind
/// those of the queued ones.
proof fn lemma_positioned<'font, V: Clone, H, F: Fn(GlyphVertex) -> V>(
    state: BrushState<'font, V, H>,
    rects: TextureRects<'font>,
    to_vertex: F,
    listed: Seq<(int, int)>,
    vertices: Seq<V>,
    n: int,
) -> (origins: Seq<(int, int)>)
    requires
        0 <= n <= state.pre.len(),
        names_seen(state, rects, state.buffer.len() as int, listed),
        crate::glyphed::made_by(
            to_vertex,
            crate::state::positioned_vertices(state.pre.take(n), rects),
            vertices,
        ),
    ensures
        names_seen(state, rects, state.buffer.len() + n, listed + origins),
        vertices.len() == origins.len(),
        forall|j: int|
            0 <= j < origins.len() ==> vertex_of(
                state,
                rects,
                to_vertex,
                (#[trigger] origins[j]).0,
                origins[j].1,
                vertices[j],
            ),
    decreases n,
{
    if n == 0 {
        assert(state.pre.take(0) =~= Seq::empty());
        assert(listed + Seq::<(int, int)>::empty() =~= listed);
        Seq::empty()
    } else {
        let k = state.buffer.len() + n - 1;
        let section = state.pre[n - 1];
        assert(drawn_section(state, k) == section);
        assert(state.pre.take(n).drop_last() =~= state.pre.take(n - 1));
        assert(state.pre.take(n).last() == section);
        let shorter = crate::state::positioned_vertices(state.pre.take(n - 1), rects);
        let list = crate::state::positioned_vertices(state.pre.take(n), rects);
        let own = vertices_for(section, rects);
        assert(list == shorter + own);
        let front = vertices.take(shorter.len() as int);
        assert forall|j: int| 0 <= j < shorter.len() implies call_ensures(
            to_vertex,
            (shorter[j],),
            #[trigger] front[j],
        ) by {
            assert(front[j] == vertices[j]);
            assert(list[j] == shorter[j]);
        }
        let before = lemma_positioned(state, rects, to_vertex, listed, front, n - 1);
        let indices = lemma_seen(section, rects);
        lemma_one_more_section(state, rects, k, listed + before, indices);
        let more = Seq::new(indices.len(), |j: int| (k, indices[j]));
        let origins = before + more;
        assert(listed + before + more =~= listed + origins);
        assert forall|j: int| 0 <= j < origins.len() implies vertex_of(
            state,
            rects,
            to_vertex,
            (#[trigger] origins[j]).0,
            origins[j].1,
            vertices[j],
        ) by {
            if j < before.len() {
                assert(origins[j] == before[j]);
                assert(front[j] == vertices[j]);
            } else {
                let m = j - before.len();
                assert(origins[j] == more[m]);
                assert(list[j] == own[m]);
                assert(made_from(own[m], section, rects, indices[m]));
                assert(call_ensures(to_vertex, (list[j],), vertices[j]));
            }
        }
        origins
    }
}

/// A frame that is drawn gives one vertex for each of its glyphs that can be seen: those of the
/// queued sections first, in the order in which the sections were queued, and then those of the
/// sections that came positioned. Each vertex is made from its own glyph: its colour, the place
/// where the texture shows it after the frame, and the bounds and the depth of its section. The
/// texture holds every glyph that has a box of these sections, and of those that are used in the
/// frame without being drawn.
pub proof fn frames_are_drawn_glyph_by_glyph<'font, V: Clone, H: SectionHasher, F: Fn(
    GlyphVertex,
) -> V>(
    state: BrushState<'font, V, H>,
    after: BrushState<'font, V, H>,
    vertices: Vec<V>,
    to_vertex: F,
)
    requires
        state.valid(),
        state.coherent(),
        state.processed(after, Ok(BrushAction::Draw(vertices)), to_vertex),
    ensures
        forall|h: SectionHash, i: int|
            #![trigger state.sections[h].positioned.glyphs[i]]
            state.keep.contains(h) && state.sections.contains_key(h) && 0 <= i
                < state.sections[h].positioned.glyphs.len() && glyph_box(
                state.sections[h].positioned.glyphs[i].glyph,
            ) is Some ==> texture_rects(after.texture).contains_key(
                (
                    state.sections[h].positioned.glyphs[i].font_id.0,
                    state.sections[h].positioned.glyphs[i].glyph,
                ),
            ),
        forall|k: int, i: int|
            #![trigger drawn_section(state, k).glyphs[i]]
            0 <= k < state.buffer.len() + state.pre.len() && 0 <= i < drawn_section(
                state,
                k,
            ).glyphs.len() && glyph_box(drawn_section(state, k).glyphs[i].glyph) is Some
                ==> texture_rects(after.texture).contains_key(
                (
                    drawn_section(state, k).glyphs[i].font_id.0,
                    drawn_section(state, k).glyphs[i].glyph,
                ),
            ),
        exists|origins: Seq<(int, int)>|
            {
                &&& #[trigger] names_seen(
                    state,
                    texture_rects(after.texture),
                    (state.buffer.len() + state.pre.len()) as int,
                    origins,
                )
                &&& vertices@.len() == origins.len()
                &&& forall|j: int|
                    0 <= j < origins.len() ==> vertex_of(
                        state,
                        texture_rects(after.texture),
                        to_vertex,
                        (#[trigger] origins[j]).0,
                        origins[j].1,
                        vertices@[j],
                    )
            },
{
    let rects = texture_rects(after.texture);
    let (cached, reordered, sections) = crate::laws::lemma_drawn(
        state,
        after,
        vertices@,
        to_vertex,
    );
    let before = cached.sections_usable(reordered);
    assert forall|k: int| 0 <= k < state.buffer.len() implies listed_right(
        state,
        sections,
        rects,
        to_vertex,
        #[trigger] state.buffer[k],
    ) by {
        let h = state.buffer[k];
        assert(state.sections.contains_key(h));
        assert(before.dom().contains(h));
        assert(sections.contains_key(h));
        assert(state.buffer.contains(h));
        assert(state.sections[h].shows(rects) || reordered);
    }
    let n = state.buffer.len() as int;
    let listed = lemma_listed(state, sections, rects, to_vertex, n);
    assert(state.buffer.take(n) =~= state.buffer);
    assert(state.pre.take(state.pre.len() as int) =~= state.pre);
    let own = crate::state::listed_vertices(sections, state.buffer);
    let positioned = lemma_positioned(
        state,
        rects,
        to_vertex,
        listed,
        vertices@.skip(own.len() as int),
        state.pre.len() as int,
    );
    let origins = listed + positioned;
    assert forall|j: int| 0 <= j < origins.len() implies vertex_of(
        state,
        rects,
        to_vertex,
        (#[trigger] origins[j]).0,
        origins[j].1,
        vertices@[j],
    ) by {
        if j < listed.len() {
            assert(origins[j] == listed[j]);
            assert(cloned(own[j], vertices@[j]));
        } else {
            assert(origins[j] == positioned[j - listed.len()]);
            assert(vertices@.skip(own.len() as int)[j - listed.len()] == vertices@[j]);
        }
    }
    assert(names_seen(state, rects, n + state.pre.len(), origins));
    assert forall|h: SectionHash, i: int|
        #![trigger state.sections[h].positioned.glyphs[i]]
        state.keep.contains(h) && state.sections.contains_key(h) && 0 <= i
            < state.sections[h].positioned.glyphs.len() && glyph_box(
            state.sections[h].positioned.glyphs[i].glyph,
        ) is Some implies rects.contains_key(
        (
            state.sections[h].positioned.glyphs[i].font_id.0,
            state.sections[h].positioned.glyphs[i].glyph,
        ),
    ) by {
        let section = state.sections[h].positioned;
        assert(crate::state::section_held(section, rects));
        assert(!crate::texture::glyph_missed(
            rects,
            section.glyphs[i].font_id.0,
            section.glyphs[i].glyph,
        ));
    }
    assert forall|k: int, i: int|
        #![trigger drawn_section(state, k).glyphs[i]]
        0 <= k < state.buffer.len() + state.pre.len() && 0 <= i < drawn_section(
            state,
            k,
        ).glyphs.len() && glyph_box(
            drawn_section(state, k).glyphs[i].glyph,
        ) is Some implies rects.contains_key(
        (drawn_section(state, k).glyphs[i].font_id.0, drawn_section(state, k).glyphs[i].glyph),
    ) by {
        let section = drawn_section(state, k);
        if k < n {
            let h = state.buffer[k];
            assert(state.keep.contains(h) && state.sections.contains_key(h));
        } else {
            assert(state.pre[k - n] == section);
        }
        assert(crate::state::section_held(section, rects));
        assert(!crate::texture::glyph_missed(
            rects,
            section.glyphs[i].font_id.0,
            section.glyphs[i].glyph,
        ));
    }
}

/// Whether two positioned glyphs are the same for drawing: the font, the number, the scale, the
/// place and the colour.
pub open spec fn same_glyphs(a: SectionGlyph<'_>, b: SectionGlyph<'_>) -> bool {
    &&& a.font_id.0 == b.font_id.0
    &&& glyph_number(a.glyph) == glyph_number(b.glyph)
    &&& equal(glyph_scale(a.glyph).x, glyph_scale(b.glyph).x)
    &&& equal(glyph_scale(a.glyph).y, glyph_scale(b.glyph).y)
    &&& equal(glyph_position(a.glyph).x, glyph_position(b.glyph).x)
    &&& equal(glyph_position(a.glyph).y, glyph_position(b.glyph).y)
    &&& equal(a.color[0], b.color[0])
    &&& equal(a.color[1], b.color[1])
    &&& equal(a.color[2], b.color[2])
    &&& equal(a.color[3], b.color[3])
}

/// Whether two sections are the same for drawing, glyph by glyph.
pub open spec fn same_positioned(a: SectionView<'_>, b: SectionView<'_>) -> bool {
    &&& equal(a.bounds.min.x, b.bounds.min.x)
    &&& equal(a.bounds.min.y, b.bounds.min.y)
    &&& equal(a.bounds.max.x, b.bounds.max.x)
    &&& equal(a.bounds.max.y, b.bounds.max.y)
    &&& equal(a.z, b.z)
    &&& a.glyphs.len() == b.glyphs.len()
    &&& forall|i: int| 0 <= i < a.glyphs.len() ==> same_glyphs(#[trigger] a.glyphs[i], b.glyphs[i])
}

/// Glyphs are compared by font, number, scale, place and colour.
pub proof fn glyphs_are_compared_whole(a: SectionGlyph<'_>, b: SectionGlyph<'_>)
    ensures
        crate::glyph::glyphs_equal(a, b) <==> same_glyphs(a, b),
{
    let r = Rectangle { min: glyph_scale(a.glyph), max: glyph_position(a.glyph) };
    let s = Rectangle { min: glyph_scale(b.glyph), max: glyph_position(b.glyph) };
    let g = crate::section::SectionGeometry { screen_position: r.min, bounds: r.max };
    crate::number_laws::all_coordinates_are_compared(r.min, s.min, r, s, a.color, b.color, g, g);
    crate::number_laws::all_coordinates_are_compared(r.max, s.max, r, s, a.color, b.color, g, g);
}

/// What tells glyphs of a font apart are the number, the scale and the place.
pub proof fn shapes_are_compared_whole(a: crate::glyph::GlyphShape, b: crate::glyph::GlyphShape)
    ensures
        crate::glyph::shapes_equal(a, b) <==> {
            &&& a.number == b.number
            &&& equal(a.scale.x, b.scale.x)
            &&& equal(a.scale.y, b.scale.y)
            &&& equal(a.position.x, b.position.x)
            &&& equal(a.position.y, b.position.y)
        },
{
    crate::number_laws::patterns_compare_as_numbers(a.scale.x, b.scale.x);
    crate::number_laws::patterns_compare_as_numbers(a.scale.y, b.scale.y);
    crate::number_laws::patterns_compare_as_numbers(a.position.x, b.position.x);
    crate::number_laws::patterns_compare_as_numbers(a.position.y, b.position.y);
}

/// Positioned sections are compared whole: by bounds, depth, and every glyph.
pub proof fn sections_are_compared_whole(a: SectionView<'_>, b: SectionView<'_>)
    ensures
        crate::glyph::sections_equal(a, b) <==> same_positioned(a, b),
{
    crate::number_laws::patterns_compare_as_numbers(a.bounds.min.x, b.bounds.min.x);
    crate::number_laws::patterns_compare_as_numbers(a.bounds.min.y, b.bounds.min.y);
    crate::number_laws::patterns_compare_as_numbers(a.bounds.max.x, b.bounds.max.x);
    crate::number_laws::patterns_compare_as_numbers(a.bounds.max.y, b.bounds.max.y);
    crate::number_laws::patterns_compare_as_numbers(a.z, b.z);
    if a.glyphs.len() == b.glyphs.len() {
        assert forall|i: int| 0 <= i < a.glyphs.len() implies (crate::glyph::glyphs_equal(
            #[trigger] a.glyphs[i],
            b.glyphs[i],
        ) <==> same_glyphs(a.glyphs[i], b.glyphs[i])) by {
            glyphs_are_compared_whole(a.glyphs[i], b.glyphs[i]);
        }
        if crate::glyph::sections_equal(a, b) {
            assert forall|i: int| 0 <= i < a.glyphs.len() implies same_glyphs(
                #[trigger] a.glyphs[i],
                b.glyphs[i],
            ) by {
                assert(crate::glyph::glyphs_equal(a.glyphs[i], b.glyphs[i]));
            }
        }
        if same_positioned(a, b) {
            assert forall|i: int| 0 <= i < a.glyphs.len() implies crate::glyph::glyphs_equal(
                #[trigger] a.glyphs[i],
                b.glyphs[i],
            ) by {
                assert(same_glyphs(a.glyphs[i], b.glyphs[i]));
            }
        }
    }
}

/// Whether two frames have the same positioned sections, one by one and glyph by glyph.
pub open spec fn same_all_positioned<'font>(
    a: Seq<SectionView<'font>>,
    b: Seq<SectionView<'font>>,
) -> bool {
    &&& a.len() == b.len()
    &&& forall|k: int| 0 <= k < a.len() ==> same_positioned(#[trigger] a[k], b[k])
}

pub(crate) proof fn lemma_all_compared<'font>(a: Seq<SectionView<'font>>, b: Seq<SectionView<'font>>)
    ensures
        crate::state::all_sections_equal(a, b) <==> same_all_positioned(a, b),
{
    if a.len() == b.len() {
        assert forall|k: int| 0 <= k < a.len() implies (crate::glyph::sections_equal(
            #[trigger] a[k],
            b[k],
        ) <==> same_positioned(a[k], b[k])) by {
            sections_are_compared_whole(a[k], b[k]);
        }
        if crate::state::all_sections_equal(a, b) {
            assert forall|k: int| 0 <= k < a.len() implies same_positioned(
                #[trigger] a[k],
                b[k],
            ) by {
                assert(crate::glyph::sections_equal(a[k], b[k]));
            }
        }
        if same_all_positioned(a, b) {
            assert forall|k: int| 0 <= k < a.len() implies crate::glyph::sections_equal(
                #[trigger] a[k],
                b[k],
            ) by {
                assert(same_positioned(a[k], b[k]));
            }
        }
    }
}

/// A frame is redrawn just where drawing is cached, the hash of what is queued is that of what was
/// drawn last, and the sections that came positioned are those of the last frame, glyph by glyph.
pub proof fn frames_are_redrawn_just_where_unchanged<'font, V: Clone, H: SectionHasher, F: Fn(
    GlyphVertex,
) -> V>(
    state: BrushState<'font, V, H>,
    after: BrushState<'font, V, H>,
    outcome: Result<BrushAction<V>, BrushError>,
    to_vertex: F,
)
    requires
        state.processed(after, outcome, to_vertex),
    ensures
        (outcome matches Ok(BrushAction::ReDraw)) <==> {
            &&& state.cache_drawing
            &&& state.last_draw == state.hasher.digest(list_writes(state.buffer))
            &&& same_all_positioned(state.last_pre, state.pre)
        },
{
    lemma_all_compared(state.last_pre, state.pre);
}

/// A frame is only redrawn if it is the frame before it: drawing is cached, the same sections are
/// queued in the same order, unless the hasher answers alike for two lists of them, and the
/// sections that came positioned are the same, each glyph with its font, number, scale, place and
/// colour. And such a frame is never drawn anew or refused.
pub proof fn redrawn_frames_are_unchanged<'font, V: Clone, H: SectionHasher, F: Fn(
    GlyphVertex,
) -> V, E: Fn(GlyphVertex) -> V>(
    first: BrushState<'font, V, H>,
    started: BrushState<'font, V, H>,
    outcome: Result<BrushAction<V>, BrushError>,
    to_vertex: F,
    next: BrushState<'font, V, H>,
    after: BrushState<'font, V, H>,
    repeated: Result<BrushAction<V>, BrushError>,
    to_next_vertex: E,
)
    requires
        first.processed(started, outcome, to_vertex),
        outcome is Ok,
        next.hasher == first.hasher,
        next.last_draw == started.last_draw,
        next.last_pre == started.last_pre,
        next.processed(after, repeated, to_next_vertex),
    ensures
        (repeated matches Ok(BrushAction::ReDraw)) ==> {
            &&& next.cache_drawing
            &&& told(next.hasher, list_writes(first.buffer), list_writes(next.buffer))
                ==> next.buffer == first.buffer
            &&& same_all_positioned(first.pre, next.pre)
        },
        next.cache_drawing && next.buffer == first.buffer && same_all_positioned(
            first.pre,
            next.pre,
        ) ==> (repeated matches Ok(BrushAction::ReDraw)),
{
    lemma_all_compared(first.pre, next.pre);
    if told(next.hasher, list_writes(first.buffer), list_writes(next.buffer))
        && crate::hashing::hashes_digest(next.hasher, first.buffer)
        == crate::hashing::hashes_digest(next.hasher, next.buffer) {
        crate::hash_laws::hash_lists_are_told_apart(next.hasher, first.buffer, next.buffer);
    }
}

} // verus!
