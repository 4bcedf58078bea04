//! Points, rectangles and colours, and the comparisons made between them.
use crate::float32::Float32;
use vstd::prelude::*;

verus! {

/// A point in two dimensions.
#[derive(Clone, Copy, Debug, PartialEq)]
pub struct Point<N> {
    pub x: N,
    pub y: N,
}

/// A rectangle, by its least and its greatest corner.
#[derive(Clone, Copy, Debug, PartialEq)]
pub struct Rectangle<N> {
    pub min: Point<N>,
    pub max: Point<N>,
}

/// Red, green, blue and alpha.
pub type Color = [Float32; 4];

/// The number that an integer becomes when it is cast to floating point, in the units of
/// [`Float32::value`].
pub open spec fn cast_value(x: i32) -> int {
    (if x < 0 {
        -(crate::float32::round_to_significand((-x) as nat) as int)
    } else {
        crate::float32::round_to_significand(x as nat) as int
    }) * vstd::arithmetic::power2::pow2(149)
}

/// Whether `x`, cast to floating point, is greater than `bound`.
pub open spec fn cast_above(x: i32, bound: Float32) -> bool {
    !bound.is_nan_spec() && bound.value() < cast_value(x)
}

/// Whether `x`, cast to floating point, is less than `bound`.
pub open spec fn cast_below(x: i32, bound: Float32) -> bool {
    !bound.is_nan_spec() && cast_value(x) < bound.value()
}

/// Whether a rectangle of pixels lies totally outside of `bounds`.
pub open spec fn outside_bounds(pixels: Rectangle<i32>, bounds: Rectangle<Float32>) -> bool {
    ||| cast_above(pixels.min.x, bounds.max.x)
    ||| cast_above(pixels.min.y, bounds.max.y)
    ||| cast_below(pixels.max.x, bounds.min.x)
    ||| cast_below(pixels.max.y, bounds.min.y)
}

/// Numeric equality of two points.
pub open spec fn points_equal(a: Point<Float32>, b: Point<Float32>) -> bool {
    a.x.num_eq(b.x) && a.y.num_eq(b.y)
}

/// Numeric equality of two rectangles.
pub open spec fn rects_equal(a: Rectangle<Float32>, b: Rectangle<Float32>) -> bool {
    points_equal(a.min, b.min) && points_equal(a.max, b.max)
}

/// Numeric equality of two colours.
pub open spec fn colors_equal(a: Color, b: Color) -> bool {
    forall|i: int| 0 <= i < 4 ==> (#[trigger] a[i]).num_eq(b[i])
}

/// The least rectangle of whole pixels that holds `bounds`, as far as `i32` reaches.
pub open spec fn pixels_around(bounds: Rectangle<Float32>) -> Rectangle<int> {
    Rectangle {
        min: Point { x: bounds.min.x.floor_spec(), y: bounds.min.y.floor_spec() },
        max: Point { x: bounds.max.x.ceil_spec(), y: bounds.max.y.ceil_spec() },
    }
}

/// Tests whether a rectangle of pixels lies totally outside of `bounds`.
pub fn is_outside(pixels: &Rectangle<i32>, bounds: &Rectangle<Float32>) -> (r: bool)
    ensures
        r == outside_bounds(*pixels, *bounds),
{
    Float32::from_i32(pixels.min.x).greater(bounds.max.x)
        || Float32::from_i32(pixels.min.y).greater(bounds.max.y)
        || bounds.min.x.greater(Float32::from_i32(pixels.max.x))
        || bounds.min.y.greater(Float32::from_i32(pixels.max.y))
}

/// Compares two points as numbers.
pub fn same_point(a: &Point<Float32>, b: &Point<Float32>) -> (r: bool)
    ensures
        r == points_equal(*a, *b),
{
    a.x.equals(b.x) && a.y.equals(b.y)
}

/// Compares two rectangles as numbers.
pub fn same_rect(a: &Rectangle<Float32>, b: &Rectangle<Float32>) -> (r: bool)
    ensures
        r == rects_equal(*a, *b),
{
    same_point(&a.min, &b.min) && same_point(&a.max, &b.max)
}

/// Compares two colours as numbers.
pub fn same_color(a: &Color, b: &Color) -> (r: bool)
    ensures
        r == colors_equal(*a, *b),
{
    let mut i: usize = 0;
    while i < 4
        invariant
            i <= 4,
            forall|j: int| 0 <= j < i ==> (#[trigger] a[j]).num_eq(b[j]),
        decreases 4 - i,
    {
        if !a[i].equals(b[i]) {
            assert(!a[i as int].num_eq(b[i as int]));
            return false;
        }
        i = i + 1;
    }
    true
}

} // verus!
