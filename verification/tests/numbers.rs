use glyph_brush::float32::Float32;
use glyph_brush::geometry::{is_outside, same_color, same_point, same_rect, Point, Rectangle};

fn number(x: f32) -> Float32 {
    Float32::from_bits(x.to_bits())
}

fn samples() -> Vec<f32> {
    vec![
        0.0,
        -0.0,
        1.0,
        -1.0,
        0.5,
        -0.5,
        1.5,
        2.5,
        -2.5,
        0.1,
        1e-45,
        -1e-45,
        1.1754944e-38,
        16777215.0,
        16777216.0,
        -16777217.0,
        123456.78,
        2147483500.0,
        2147483600.0,
        -2147483600.0,
        -2147483900.0,
        3.4e38,
        -3.4e38,
        f32::INFINITY,
        f32::NEG_INFINITY,
        f32::NAN,
        -f32::NAN,
    ]
}

fn pixels(x0: i32, y0: i32, x1: i32, y1: i32) -> Rectangle<i32> {
    Rectangle { min: Point { x: x0, y: y0 }, max: Point { x: x1, y: y1 } }
}

fn bounds(x0: f32, y0: f32, x1: f32, y1: f32) -> Rectangle<Float32> {
    Rectangle {
        min: Point { x: number(x0), y: number(y0) },
        max: Point { x: number(x1), y: number(y1) },
    }
}

#[test]
fn patterns_are_kept() {
    assert_eq!(Float32::from_bits(0x4048_f5c3).bits, 0x4048_f5c3);
    assert_eq!(number(1.0).bits, 0x3f80_0000);
}

#[test]
fn nans_are_told_from_numbers() {
    for x in samples() {
        assert_eq!(number(x).is_nan(), x.is_nan());
    }
    assert!(Float32::from_bits(0x7f80_0001).is_nan());
    assert!(!Float32::from_bits(0x7f80_0000).is_nan());
    assert!(Float32::from_bits(0xffff_ffff).is_nan());
}

#[test]
fn comparisons_match_the_machine() {
    for a in samples() {
        for b in samples() {
            assert_eq!(number(a).greater(number(b)), a > b);
            assert_eq!(number(a).equals(number(b)), a == b);
        }
    }
}

#[test]
fn casts_from_integers_match_the_machine() {
    let mut inputs: Vec<i32> = vec![
        0,
        1,
        -1,
        7,
        255,
        16777215,
        16777216,
        16777217,
        16777218,
        16777219,
        -16777217,
        -16777219,
        33554433,
        33554434,
        33554435,
        1 << 30,
        i32::MAX,
        i32::MAX - 64,
        i32::MIN,
        i32::MIN + 1,
    ];
    let mut x: i64 = 1;
    for _ in 0..2000 {
        x = (x * 48271) % 2147483647;
        inputs.push(x as i32);
        inputs.push(-(x as i32));
    }
    for i in inputs {
        assert_eq!(Float32::from_i32(i).bits, (i as f32).to_bits());
    }
}

#[test]
fn floors_and_ceilings_match_the_machine() {
    let mut inputs = samples();
    let mut bits: u32 = 12345;
    for _ in 0..4000 {
        bits = bits.wrapping_mul(1664525).wrapping_add(1013904223);
        inputs.push(f32::from_bits(bits));
    }
    for x in inputs {
        assert_eq!(number(x).floor_i32(), x.floor() as i32);
        assert_eq!(number(x).ceil_i32(), x.ceil() as i32);
    }
    assert_eq!(number(2.5).floor_i32(), 2);
    assert_eq!(number(2.5).ceil_i32(), 3);
    assert_eq!(number(-2.5).floor_i32(), -3);
    assert_eq!(number(f32::NAN).ceil_i32(), 0);
}

#[test]
fn equal_numbers_share_a_hashed_pattern() {
    assert_eq!(number(0.0).canonical_bits(), number(-0.0).canonical_bits());
    assert_eq!(number(f32::NAN).canonical_bits(), number(-f32::NAN).canonical_bits());
    assert_eq!(number(1.5).canonical_bits(), 1.5f32.to_bits());
    for a in samples() {
        for b in samples() {
            if a == b {
                assert_eq!(number(a).canonical_bits(), number(b).canonical_bits());
            } else if !a.is_nan() && !b.is_nan() {
                assert_ne!(number(a).canonical_bits(), number(b).canonical_bits());
            }
        }
    }
}

#[test]
fn pixels_are_outside_when_they_do_not_meet_the_bounds() {
    let limits = bounds(0.0, 0.0, 10.0, 20.0);
    assert!(!is_outside(&pixels(2, 2, 5, 5), &limits));
    assert!(!is_outside(&pixels(10, 20, 15, 25), &limits));
    assert!(is_outside(&pixels(11, 2, 15, 5), &limits));
    assert!(is_outside(&pixels(2, 21, 5, 25), &limits));
    assert!(is_outside(&pixels(-9, 2, -1, 5), &limits));
    assert!(is_outside(&pixels(2, -9, 5, -1), &limits));
    assert!(!is_outside(&pixels(-9, -9, 0, 0), &limits));
    assert!(is_outside(&pixels(11, 2, 15, 5), &bounds(0.0, 0.0, 10.5, 20.0)));
    assert!(!is_outside(&pixels(500, 2, 505, 5), &bounds(0.0, 0.0, f32::NAN, 20.0)));
    assert!(!is_outside(&pixels(500, 2, 505, 5), &bounds(0.0, 0.0, f32::INFINITY, 20.0)));
}

#[test]
fn shapes_are_compared_as_numbers() {
    let p = Point { x: number(0.0), y: number(3.0) };
    let q = Point { x: number(-0.0), y: number(3.0) };
    assert!(same_point(&p, &q));
    assert!(!same_point(&p, &Point { x: number(0.0), y: number(f32::NAN) }));
    assert!(same_rect(&bounds(0.0, 1.0, 2.0, 3.0), &bounds(-0.0, 1.0, 2.0, 3.0)));
    assert!(!same_rect(&bounds(0.0, 1.0, 2.0, 3.0), &bounds(0.0, 1.0, 2.0, 3.5)));
    let red = [number(1.0), number(0.0), number(0.0), number(1.0)];
    let faded = [number(1.0), number(0.0), number(0.0), number(0.5)];
    assert!(same_color(&red, &red));
    assert!(!same_color(&red, &faded));
}
