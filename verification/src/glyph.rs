//! Positioned glyphs, and the sections of text that are made of them.
use crate::float32::Float32;
use crate::geometry::{same_color, same_point, same_rect, Color, Point, Rectangle};
use crate::texture::{is_in_reach, read_box, read_number, read_position, read_scale};
use rusttype::PositionedGlyph;
use vstd::prelude::*;

verus! {

/// The number of a font, counted in the order in which fonts were added.
#[derive(Clone, Copy, Debug, PartialEq, Eq, Structural)]
pub struct FontId(pub usize);

/// A glyph where it is to be drawn, with its colour and the number of its font.
pub struct SectionGlyph<'font> {
    pub glyph: PositionedGlyph<'font>,
    pub color: Color,
    pub font_id: FontId,
}

impl<'font> Clone for SectionGlyph<'font> {
    fn clone(&self) -> (r: Self)
        ensures
            r == *self,
    {
        SectionGlyph { glyph: self.glyph.clone(), color: self.color, font_id: self.font_id }
    }
}

/// What tells one positioned glyph of a font from another.
#[derive(Clone, Copy, Debug)]
pub struct GlyphShape {
    pub number: u32,
    pub scale: Point<Float32>,
    pub position: Point<Float32>,
}

/// Whether two glyphs of a font look alike and stand at the same place.
pub open spec fn shapes_equal(a: GlyphShape, b: GlyphShape) -> bool {
    &&& a.number == b.number
    &&& crate::geometry::points_equal(a.position, b.position)
    &&& crate::geometry::points_equal(a.scale, b.scale)
}

/// What tells a positioned glyph from others of its font.
pub open spec fn shape_of(glyph: PositionedGlyph<'_>) -> GlyphShape {
    GlyphShape {
        number: crate::texture::glyph_number(glyph),
        scale: crate::texture::glyph_scale(glyph),
        position: crate::texture::glyph_position(glyph),
    }
}

/// Whether two glyphs are drawn the same.
pub open spec fn glyphs_equal(a: SectionGlyph<'_>, b: SectionGlyph<'_>) -> bool {
    &&& a.font_id == b.font_id
    &&& crate::geometry::colors_equal(a.color, b.color)
    &&& shapes_equal(shape_of(a.glyph), shape_of(b.glyph))
}

/// Compares what tells two glyphs apart.
pub fn same_shape(a: &GlyphShape, b: &GlyphShape) -> (r: bool)
    ensures
        r == shapes_equal(*a, *b),
{
    a.number == b.number && same_point(&a.position, &b.position) && same_point(&a.scale, &b.scale)
}

/// Reads from a positioned glyph what tells it from others of its font.
pub fn glyph_shape(glyph: &PositionedGlyph<'_>) -> (r: GlyphShape)
    ensures
        r == shape_of(*glyph),
{
    GlyphShape {
        number: read_number(glyph),
        scale: read_scale(glyph),
        position: read_position(glyph),
    }
}

impl<'font> SectionGlyph<'font> {
    /// Tests whether two glyphs are drawn the same.
    pub fn same(&self, other: &SectionGlyph<'font>) -> (r: bool)
        ensures
            r == glyphs_equal(*self, *other),
    {
        self.font_id.0 == other.font_id.0 && same_color(&self.color, &other.color) && same_shape(
            &glyph_shape(&self.glyph),
            &glyph_shape(&other.glyph),
        )
    }
}

/// The glyphs of a section, the bounds that they were laid out in, and their depth.
pub struct GlyphedSection<'font> {
    pub bounds: Rectangle<Float32>,
    pub glyphs: Vec<SectionGlyph<'font>>,
    pub z: Float32,
}

/// What a [`GlyphedSection`] is.
#[verifier::ext_equal]
pub struct SectionView<'font> {
    pub bounds: Rectangle<Float32>,
    pub glyphs: Seq<SectionGlyph<'font>>,
    pub z: Float32,
}

impl<'font> View for GlyphedSection<'font> {
    type V = SectionView<'font>;

    open spec fn view(&self) -> SectionView<'font> {
        SectionView { bounds: self.bounds, glyphs: self.glyphs@, z: self.z }
    }
}

/// Whether two sections are drawn the same.
pub open spec fn sections_equal(a: SectionView<'_>, b: SectionView<'_>) -> bool {
    &&& crate::geometry::rects_equal(a.bounds, b.bounds)
    &&& a.z.num_eq(b.z)
    &&& a.glyphs.len() == b.glyphs.len()
    &&& forall|i: int| 0 <= i < a.glyphs.len() ==> glyphs_equal(#[trigger] a.glyphs[i], b.glyphs[i])
}

/// Whether the pixels of all glyphs of a section can be counted.
pub open spec fn section_in_reach(section: SectionView<'_>) -> bool {
    forall|i: int|
        0 <= i < section.glyphs.len() ==> crate::texture::glyph_in_reach(
            (#[trigger] section.glyphs[i]).glyph,
        )
}

/// The part of a box of pixels that lies within `limits`, if they meet.
pub open spec fn clipped(pixels: Rectangle<i32>, limits: Rectangle<int>) -> Option<Rectangle<int>> {
    if pixels.max.x < limits.min.x || pixels.max.y < limits.min.y || pixels.min.x > limits.max.x
        || pixels.min.y > limits.max.y {
        None
    } else {
        Some(
            Rectangle {
                min: Point {
                    x: vstd::math::max(pixels.min.x as int, limits.min.x),
                    y: vstd::math::max(pixels.min.y as int, limits.min.y),
                },
                max: Point {
                    x: vstd::math::min(pixels.max.x as int, limits.max.x),
                    y: vstd::math::min(pixels.max.y as int, limits.max.y),
                },
            },
        )
    }
}

/// The part within `limits` of the `i`th box, if there is one.
pub open spec fn part_within(
    boxes: Seq<Option<Rectangle<i32>>>,
    limits: Rectangle<int>,
    i: int,
) -> Option<Rectangle<int>> {
    match boxes[i] {
        Some(pixels) => clipped(pixels, limits),
        None => None,
    }
}

/// Whether `whole` is the least rectangle around what lies within `limits` of all the boxes:
/// it holds every part, and each of its sides is that of a part.
pub open spec fn least_around(
    whole: Rectangle<i32>,
    boxes: Seq<Option<Rectangle<i32>>>,
    limits: Rectangle<int>,
) -> bool {
    &&& forall|i: int|
        #![trigger part_within(boxes, limits, i)]
        0 <= i < boxes.len() ==> (part_within(boxes, limits, i) matches Some(p) ==> {
            &&& whole.min.x <= p.min.x
            &&& whole.min.y <= p.min.y
            &&& whole.max.x >= p.max.x
            &&& whole.max.y >= p.max.y
        })
    &&& exists|i: int|
        #![trigger part_within(boxes, limits, i)]
        0 <= i < boxes.len() && (part_within(boxes, limits, i) matches Some(p) && whole.min.x
            == p.min.x)
    &&& exists|i: int|
        #![trigger part_within(boxes, limits, i)]
        0 <= i < boxes.len() && (part_within(boxes, limits, i) matches Some(p) && whole.min.y
            == p.min.y)
    &&& exists|i: int|
        #![trigger part_within(boxes, limits, i)]
        0 <= i < boxes.len() && (part_within(boxes, limits, i) matches Some(p) && whole.max.x
            == p.max.x)
    &&& exists|i: int|
        #![trigger part_within(boxes, limits, i)]
        0 <= i < boxes.len() && (part_within(boxes, limits, i) matches Some(p) && whole.max.y
            == p.max.y)
}

/// Whether no box has a part within `limits`.
pub open spec fn none_within(boxes: Seq<Option<Rectangle<i32>>>, limits: Rectangle<int>) -> bool {
    forall|i: int|
        0 <= i < boxes.len() ==> (#[trigger] part_within(boxes, limits, i)) is None
}

/// Whether `r` is the answer to the question which pixels `boxes` cover within `limits`.
pub open spec fn covers(
    r: Option<Rectangle<i32>>,
    boxes: Seq<Option<Rectangle<i32>>>,
    limits: Rectangle<int>,
) -> bool {
    match r {
        Some(whole) => least_around(whole, boxes, limits),
        None => none_within(boxes, limits),
    }
}

/// The boxes of the glyphs of a section.
pub open spec fn glyph_boxes(glyphs: Seq<SectionGlyph<'_>>) -> Seq<Option<Rectangle<i32>>> {
    Seq::new(glyphs.len(), |i: int| crate::texture::glyph_box(glyphs[i].glyph))
}

fn larger(a: i32, b: i32) -> (r: i32)
    ensures
        r == vstd::math::max(a as int, b as int),
{
    if a > b {
        a
    } else {
        b
    }
}

fn smaller(a: i32, b: i32) -> (r: i32)
    ensures
        r == vstd::math::min(a as int, b as int),
{
    if a < b {
        a
    } else {
        b
    }
}

/// The part of a box of pixels that lies within the pixels around `bounds`, if they meet.
fn clip(pixels: &Rectangle<i32>, limits: &Rectangle<i32>) -> (r: Option<Rectangle<i32>>)
    ensures
        ({
            let wide = Rectangle {
                min: Point { x: limits.min.x as int, y: limits.min.y as int },
                max: Point { x: limits.max.x as int, y: limits.max.y as int },
            };
            match (r, clipped(*pixels, wide)) {
                (Some(a), Some(b)) => a.min.x == b.min.x && a.min.y == b.min.y && a.max.x == b.max.x
                    && a.max.y == b.max.y,
                (None, None) => true,
                _ => false,
            }
        }),
{
    if pixels.max.x < limits.min.x || pixels.max.y < limits.min.y || pixels.min.x > limits.max.x
        || pixels.min.y > limits.max.y {
        None
    } else {
        Some(
            Rectangle {
                min: Point {
                    x: larger(pixels.min.x, limits.min.x),
                    y: larger(pixels.min.y, limits.min.y),
                },
                max: Point {
                    x: smaller(pixels.max.x, limits.max.x),
                    y: smaller(pixels.max.y, limits.max.y),
                },
            },
        )
    }
}

/// The least rectangle around what lies of all the boxes within the pixels around `bounds`;
/// none if nothing does.
pub fn covered_pixels(boxes: &Vec<Option<Rectangle<i32>>>, bounds: &Rectangle<Float32>) -> (r: Option<
    Rectangle<i32>,
>)
    ensures
        covers(r, boxes@, crate::geometry::pixels_around(*bounds)),
{
    let limits: Rectangle<i32> = Rectangle {
        min: Point { x: bounds.min.x.floor_i32(), y: bounds.min.y.floor_i32() },
        max: Point { x: bounds.max.x.ceil_i32(), y: bounds.max.y.ceil_i32() },
    };
    let ghost wide = crate::geometry::pixels_around(*bounds);
    let mut whole: Option<Rectangle<i32>> = None;
    let mut i: usize = 0;
    while i < boxes.len()
        invariant
            i <= boxes@.len(),
            wide == crate::geometry::pixels_around(*bounds),
            limits.min.x == wide.min.x,
            limits.min.y == wide.min.y,
            limits.max.x == wide.max.x,
            limits.max.y == wide.max.y,
            covers(whole, boxes@.take(i as int), wide),
        decreases boxes@.len() - i,
    {
        let ghost earlier = whole;
        if let Some(pixels) = &boxes[i] {
            if let Some(part) = clip(pixels, &limits) {
                whole = Some(
                    match whole {
                        None => part,
                        Some(w) => Rectangle {
                            min: Point {
                                x: smaller(w.min.x, part.min.x),
                                y: smaller(w.min.y, part.min.y),
                            },
                            max: Point {
                                x: larger(w.max.x, part.max.x),
                                y: larger(w.max.y, part.max.y),
                            },
                        },
                    },
                );
            }
        }
        proof {
            lemma_one_more_part(earlier, whole, boxes@, wide, i as int);
        }
        i = i + 1;
    }
    assert(boxes@.take(i as int) =~= boxes@);
    whole
}

/// One more box is taken in.
proof fn lemma_one_more_part(
    earlier: Option<Rectangle<i32>>,
    whole: Option<Rectangle<i32>>,
    boxes: Seq<Option<Rectangle<i32>>>,
    limits: Rectangle<int>,
    i: int,
)
    requires
        0 <= i < boxes.len(),
        covers(earlier, boxes.take(i), limits),
        match part_within(boxes, limits, i) {
            None => whole == earlier,
            Some(p) => whole is Some && match earlier {
                None => whole->0.min.x == p.min.x && whole->0.min.y == p.min.y && whole->0.max.x
                    == p.max.x && whole->0.max.y == p.max.y,
                Some(w) => {
                    &&& whole->0.min.x == vstd::math::min(w.min.x as int, p.min.x)
                    &&& whole->0.min.y == vstd::math::min(w.min.y as int, p.min.y)
                    &&& whole->0.max.x == vstd::math::max(w.max.x as int, p.max.x)
                    &&& whole->0.max.y == vstd::math::max(w.max.y as int, p.max.y)
                },
            },
        },
    ensures
        covers(whole, boxes.take(i + 1), limits),
{
    let before = boxes.take(i);
    let after = boxes.take(i + 1);
    assert(after[i] == boxes[i]);
    assert(part_within(after, limits, i) == part_within(boxes, limits, i));
    assert forall|j: int| 0 <= j < i implies #[trigger] part_within(after, limits, j)
        == part_within(before, limits, j) by {
        assert(after[j] == before[j]);
    }
    assert forall|j: int| 0 <= j < i implies #[trigger] part_within(before, limits, j)
        == part_within(after, limits, j) by {
        assert(after[j] == before[j]);
    }
}

impl<'font> GlyphedSection<'font> {
    /// Tests whether two sections are drawn the same.
    pub fn same(&self, other: &GlyphedSection<'font>) -> (r: bool)
        ensures
            r == sections_equal(self@, other@),
    {
        if !same_rect(&self.bounds, &other.bounds) || !self.z.equals(other.z) || self.glyphs.len()
            != other.glyphs.len() {
            return false;
        }
        let mut i: usize = 0;
        while i < self.glyphs.len()
            invariant
                i <= self.glyphs@.len(),
                self.glyphs@.len() == other.glyphs@.len(),
                forall|j: int|
                    0 <= j < i ==> glyphs_equal(#[trigger] self.glyphs@[j], other.glyphs@[j]),
            decreases self.glyphs@.len() - i,
        {
            if !self.glyphs[i].same(&other.glyphs[i]) {
                assert(!glyphs_equal(self@.glyphs[i as int], other@.glyphs[i as int]));
                return false;
            }
            i = i + 1;
        }
        true
    }

    /// Tests whether the pixels of all glyphs of the section can be counted.
    pub fn in_reach(&self) -> (r: bool)
        ensures
            r == section_in_reach(self@),
    {
        let mut i: usize = 0;
        while i < self.glyphs.len()
            invariant
                i <= self.glyphs@.len(),
                forall|j: int|
                    0 <= j < i ==> crate::texture::glyph_in_reach(
                        (#[trigger] self@.glyphs[j]).glyph,
                    ),
            decreases self.glyphs@.len() - i,
        {
            if !is_in_reach(&self.glyphs[i].glyph) {
                assert(!crate::texture::glyph_in_reach(self@.glyphs[i as int].glyph));
                return false;
            }
            i = i + 1;
        }
        true
    }

    /// The pixels that the glyphs of the section cover within its bounds; none if they cover
    /// none.
    pub fn pixel_bounds(&self) -> (r: Option<Rectangle<i32>>)
        ensures
            covers(r, glyph_boxes(self@.glyphs), crate::geometry::pixels_around(self@.bounds)),
    {
        let mut boxes: Vec<Option<Rectangle<i32>>> = Vec::new();
        let mut i: usize = 0;
        while i < self.glyphs.len()
            invariant
                i <= self.glyphs@.len(),
                boxes@.len() == i,
                forall|j: int|
                    0 <= j < i ==> #[trigger] boxes@[j] == crate::texture::glyph_box(
                        self.glyphs@[j].glyph,
                    ),
            decreases self.glyphs@.len() - i,
        {
            boxes.push(read_box(&self.glyphs[i].glyph));
            i = i + 1;
        }
        assert(boxes@ =~= glyph_boxes(self@.glyphs));
        covered_pixels(&boxes, &self.bounds)
    }

    /// The positioned glyphs of the section, in order.
    pub fn glyphs(&self) -> (r: Vec<&PositionedGlyph<'font>>)
        ensures
            r@.len() == self@.glyphs.len(),
            forall|i: int| 0 <= i < r@.len() ==> *(#[trigger] r@[i]) == self@.glyphs[i].glyph,
    {
        let mut r: Vec<&PositionedGlyph<'font>> = Vec::new();
        let mut i: usize = 0;
        while i < self.glyphs.len()
            invariant
                i <= self.glyphs@.len(),
                r@.len() == i,
                forall|j: int| 0 <= j < i ==> *(#[trigger] r@[j]) == self.glyphs@[j].glyph,
            decreases self.glyphs@.len() - i,
        {
            r.push(&self.glyphs[i].glyph);
            i = i + 1;
        }
        r
    }
}

/// What the glyphs of a section cover lies within its bounds, as far as whole pixels can tell.
pub proof fn covered_pixels_lie_within_bounds(section: SectionView<'_>, whole: Rectangle<i32>)
    requires
        covers(
            Some(whole),
            glyph_boxes(section.glyphs),
            crate::geometry::pixels_around(section.bounds),
        ),
    ensures
        whole.min.x >= section.bounds.min.x.floor_spec(),
        whole.min.y >= section.bounds.min.y.floor_spec(),
        whole.max.x <= section.bounds.max.x.ceil_spec(),
        whole.max.y <= section.bounds.max.y.ceil_spec(),
{
}

/// Which pixels boxes cover within limits is one answer.
pub proof fn covered_pixels_are_one(
    a: Option<Rectangle<i32>>,
    b: Option<Rectangle<i32>>,
    boxes: Seq<Option<Rectangle<i32>>>,
    limits: Rectangle<int>,
)
    requires
        covers(a, boxes, limits),
        covers(b, boxes, limits),
    ensures
        a == b,
{
}

} // verus!
