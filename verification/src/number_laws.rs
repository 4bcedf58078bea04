//! What patterns of bits say as numbers.
use crate::float32::{magnitude_value, Float32, HIDDEN};
use crate::geometry::{Color, Point, Rectangle};
use crate::section::SectionGeometry;
use vstd::arithmetic::power2::pow2;
use vstd::prelude::*;

verus! {

/// Whether a pattern is that of a NaN.
pub open spec fn no_number(x: Float32) -> bool {
    x.bits % 0x8000_0000 > 0x7f80_0000
}

/// Whether two patterns count as one where they are hashed: the same pattern, two zeros of either
/// sign, or two NaNs.
pub open spec fn alike(a: Float32, b: Float32) -> bool {
    ||| a.bits == b.bits
    ||| a.bits % 0x8000_0000 == 0 && b.bits % 0x8000_0000 == 0
    ||| no_number(a) && no_number(b)
}

/// Whether two patterns are the same number, which a NaN is not.
pub open spec fn equal(a: Float32, b: Float32) -> bool {
    alike(a, b) && !no_number(a) && !no_number(b)
}

/// Patterns are hashed alike just where they are the same, or both zero, or both NaNs.
pub proof fn patterns_hash_alike(a: Float32, b: Float32)
    ensures
        a.canonical() == b.canonical() <==> alike(a, b),
{
}

/// Numbers are equal just where their patterns are the same or both zero; a NaN equals nothing.
pub proof fn patterns_compare_as_numbers(a: Float32, b: Float32)
    ensures
        a.num_eq(b) <==> equal(a, b),
        a.is_nan_spec() <==> no_number(a),
{
    if a.num_eq(b) {
        crate::float32::equal_numbers_hash_alike(a, b);
    } else if equal(a, b) {
        assert(magnitude_value(0) == 0);
    }
}

/// Of two numbers just one thing holds: one is less, or the other, or they are equal. Nothing
/// holds of a NaN. What is less has the smaller value.
pub proof fn numbers_are_ordered(a: Float32, b: Float32)
    ensures
        a.num_lt(b) ==> a.value() < b.value(),
        no_number(a) || no_number(b) ==> !a.num_lt(b) && !b.num_lt(a) && !a.num_eq(b),
        !no_number(a) && !no_number(b) ==> (a.num_lt(b) || b.num_lt(a) || equal(a, b)),
        !(a.num_lt(b) && b.num_lt(a)),
        equal(a, b) ==> !a.num_lt(b),
{
    patterns_compare_as_numbers(a, b);
}

/// Points, rectangles, colours and geometries are equal just where all their numbers are.
pub proof fn all_coordinates_are_compared(
    p: Point<Float32>,
    q: Point<Float32>,
    r: Rectangle<Float32>,
    s: Rectangle<Float32>,
    c: Color,
    d: Color,
    g: SectionGeometry,
    h: SectionGeometry,
)
    ensures
        crate::geometry::points_equal(p, q) <==> equal(p.x, q.x) && equal(p.y, q.y),
        crate::geometry::rects_equal(r, s) <==> equal(r.min.x, s.min.x) && equal(r.min.y, s.min.y)
            && equal(r.max.x, s.max.x) && equal(r.max.y, s.max.y),
        crate::geometry::colors_equal(c, d) <==> equal(c[0], d[0]) && equal(c[1], d[1]) && equal(
            c[2],
            d[2],
        ) && equal(c[3], d[3]),
        crate::section::geometries_equal(g, h) <==> equal(
            g.screen_position.x,
            h.screen_position.x,
        ) && equal(g.screen_position.y, h.screen_position.y) && equal(g.bounds.x, h.bounds.x)
            && equal(g.bounds.y, h.bounds.y),
{
    assert forall|x: Float32, y: Float32| #[trigger] x.num_eq(y) <==> equal(x, y) by {
        patterns_compare_as_numbers(x, y);
    }
    assert(crate::geometry::colors_equal(c, d) ==> c[0].num_eq(d[0]) && c[1].num_eq(d[1])
        && c[2].num_eq(d[2]) && c[3].num_eq(d[3]));
}

/// The magnitudes up to twice the least normal one count in steps of one unit; beyond that, one
/// step of the exponent doubles the number. The sign bit negates it.
pub proof fn patterns_denote_numbers(x: Float32, y: Float32)
    ensures
        x.bits < 0x100_0000 ==> x.value() == x.bits,
        0x80_0000 <= x.bits && y.bits == x.bits + 0x80_0000 && y.bits < 0x8000_0000 ==> y.value()
            == 2 * x.value(),
        y.bits == x.bits + 0x8000_0000 ==> y.value() == -x.value(),
{
    let h = HIDDEN as int;
    vstd::arithmetic::power2::lemma2_to64();
    if x.bits < 0x100_0000 {
        if x.bits >= h {
            vstd::arithmetic::div_mod::lemma_fundamental_div_mod_converse(
                x.bits as int,
                h,
                1,
                x.bits - h,
            );
            assert((h + (x.bits - h)) * 1 == x.bits);
        } else {
            vstd::arithmetic::div_mod::lemma_fundamental_div_mod_converse(
                x.bits as int,
                h,
                0,
                x.bits as int,
            );
        }
    }
    if 0x80_0000 <= x.bits && y.bits == x.bits + 0x80_0000 && y.bits < 0x8000_0000 {
        let (q, r) = (x.bits as int / h, x.bits as int % h);
        vstd::arithmetic::div_mod::lemma_fundamental_div_mod(x.bits as int, h);
        vstd::arithmetic::div_mod::lemma_fundamental_div_mod_converse(y.bits as int, h, q + 1, r);
        vstd::arithmetic::power2::lemma_pow2_unfold(q as nat);
        let (s, low) = (h + r, pow2((q - 1) as nat) as int);
        assert(s * (2 * low) == 2 * (s * low)) by (nonlinear_arith);
    }
}

/// The floor of a number is the largest integer that is not above it, and the ceiling the
/// smallest that is not below it, as far as `i32` reaches. Those of a NaN are zero.
pub proof fn floors_and_ceilings_enclose(x: Float32)
    ensures
        no_number(x) ==> x.floor_spec() == 0 && x.ceil_spec() == 0,
        !no_number(x) ==> {
            &&& i32::MIN <= x.floor_spec() <= i32::MAX
            &&& x.floor_spec() > i32::MIN ==> x.floor_spec() * pow2(149) <= x.value()
            &&& x.floor_spec() < i32::MAX ==> x.value() < (x.floor_spec() + 1) * pow2(149)
            &&& i32::MIN <= x.ceil_spec() <= i32::MAX
            &&& x.ceil_spec() < i32::MAX ==> x.ceil_spec() * pow2(149) >= x.value()
            &&& x.ceil_spec() > i32::MIN ==> x.value() > (x.ceil_spec() - 1) * pow2(149)
        },
{
    let (v, one) = (x.value(), pow2(149) as int);
    vstd::arithmetic::power2::lemma_pow2_pos(149);
    let (q, c) = (v / one, (-v) / one);
    vstd::arithmetic::div_mod::lemma_fundamental_div_mod(v, one);
    vstd::arithmetic::div_mod::lemma_fundamental_div_mod(-v, one);
    assert(q * one <= v < (q + 1) * one) by (nonlinear_arith)
        requires
            v == one * q + v % one,
            0 <= v % one < one,
    ;
    assert((-c) * one >= v > (-c - 1) * one) by (nonlinear_arith)
        requires
            -v == one * c + (-v) % one,
            0 <= (-v) % one < one,
    ;
    let (f, e) = (x.floor_spec(), x.ceil_spec());
    if f != q {
        assert(f == i32::MAX && q > f ==> f * one <= q * one) by (nonlinear_arith)
            requires
                one > 0,
        ;
        assert(f == i32::MIN && q < f ==> (q + 1) * one <= (f + 1) * one) by (nonlinear_arith)
            requires
                one > 0,
        ;
    }
    if e != -c {
        assert(e == i32::MAX && -c > e ==> (e - 1) * one <= (-c - 1) * one) by (nonlinear_arith)
            requires
                one > 0,
        ;
        assert(e == i32::MIN && -c < e ==> (-c) * one <= e * one) by (nonlinear_arith)
            requires
                one > 0,
        ;
    }
}

proof fn lemma_excess(n: nat)
    ensures
        n < pow2(crate::float32::excess_bits(n)) * 0x100_0000,
        n < 0x100_0000 <==> crate::float32::excess_bits(n) == 0,
        n >= 0x100_0000 ==> n >= pow2(crate::float32::excess_bits(n)) * 0x80_0000,
    decreases n,
{
    vstd::arithmetic::power2::lemma2_to64();
    if n >= 0x100_0000 {
        lemma_excess(n / 2);
        let e = crate::float32::excess_bits(n / 2);
        vstd::arithmetic::power2::lemma_pow2_unfold(e + 1);
    }
}

/// Whether `r` is `n` rounded to 24 bits: off by no more than one part in 2^24, not at all up to
/// 2^24, and even in its last bit where `n` lies half way between two such numbers.
pub open spec fn nearest(n: nat, r: nat) -> bool {
    &&& n <= 0x100_0000 ==> r == n
    &&& (r - n) * 0x100_0000 <= n
    &&& (n - r) * 0x100_0000 <= n
    &&& forall|k: nat|
        #![trigger pow2(k + 2)]
        pow2(k + 1) * 0x80_0000 <= n < pow2(k + 1) * 0x100_0000 && n % pow2(k + 1) == pow2(k)
            ==> r % pow2(k + 2) == 0
}

/// A cast to floating point rounds to the nearest number, and of two equally near to the even
/// one. It is exact up to 2^24, and negates what it gives for the negated integer.
pub proof fn casts_are_rounded(x: i32, n: nat)
    requires
        if x < 0 {
            n == -x
        } else {
            n == x
        },
    ensures
        exists|r: nat| #[trigger]
            nearest(n, r) && crate::geometry::cast_value(x) == (if x < 0 {
                -(r as int)
            } else {
                r as int
            }) * pow2(149),
{
    let r = crate::float32::round_to_significand(n);
    let e = crate::float32::excess_bits(n);
    let unit = pow2(e);
    vstd::arithmetic::power2::lemma2_to64();
    vstd::arithmetic::power2::lemma_pow2_pos(e);
    lemma_excess(n);
    let (low, rest) = (n / unit, n % unit);
    vstd::arithmetic::div_mod::lemma_fundamental_div_mod(n as int, unit as int);
    let up = 2 * rest > unit || (2 * rest == unit && low % 2 == 1);
    assert(low * unit == n - rest) by (nonlinear_arith)
        requires
            n == unit * low + rest,
    ;
    assert((low + 1) * unit == n - rest + unit) by (nonlinear_arith)
        requires
            n == unit * low + rest,
    ;
    if n == 0x100_0000 {
        assert(crate::float32::excess_bits(n) == 1) by {
            assert(crate::float32::excess_bits(0x80_0000) == 0);
        }
    }
    assert forall|k: nat|
        #![trigger pow2(k + 2)]
        pow2(k + 1) * 0x80_0000 <= n < pow2(k + 1) * 0x100_0000 && n % pow2(k + 1) == pow2(
            k,
        ) implies r % pow2(k + 2) == 0 by {
        vstd::arithmetic::power2::lemma_pow2_pos(k);
        vstd::arithmetic::power2::lemma_pow2_unfold(k + 1);
        vstd::arithmetic::power2::lemma_pow2_unfold(k + 2);
        if e > k + 1 {
            if e > k + 2 {
                vstd::arithmetic::power2::lemma_pow2_strictly_increases(k + 2, e);
            }
        } else if e < k + 1 {
            vstd::arithmetic::power2::lemma_pow2_unfold(e + 1);
            if e + 1 < k + 1 {
                vstd::arithmetic::power2::lemma_pow2_strictly_increases(e + 1, k + 1);
            }
        }
        assert(e == k + 1 || n < 0x100_0000);
        if e == k + 1 {
            let kept = if up {
                low + 1
            } else {
                low
            };
            assert(kept % 2 == 0);
            let half = kept / 2;
            assert(r == half * pow2(k + 2)) by (nonlinear_arith)
                requires
                    r == kept * unit,
                    kept == 2 * half,
                    pow2(k + 2) == 2 * unit,
            ;
            vstd::arithmetic::div_mod::lemma_mod_multiples_basic(half as int, pow2(k + 2) as int);
        } else {
            assert(pow2(k + 1) >= 2);
        }
    }
    assert(nearest(n, r));
}

/// A number is its integer part and its fraction, which has its sign and is less than one.
pub proof fn fractions_are_what_is_left(x: Float32)
    ensures
        (x.value() - x.fraction()) % (pow2(149) as int) == 0,
        -(pow2(149) as int) < x.fraction() < pow2(149),
        x.value() >= 0 ==> x.fraction() >= 0,
        x.value() <= 0 ==> x.fraction() <= 0,
{
    let (m, one) = (magnitude_value(x.magnitude()) as int, pow2(149) as int);
    vstd::arithmetic::power2::lemma_pow2_pos(149);
    let (q, r) = (m / one, m % one);
    vstd::arithmetic::div_mod::lemma_fundamental_div_mod(m, one);
    if m == 0 {
        vstd::arithmetic::div_mod::lemma_small_mod(0, one as nat);
    }
    assert(m - r == q * one && -m + r == (-q) * one) by (nonlinear_arith)
        requires
            m == one * q + r,
    ;
    vstd::arithmetic::div_mod::lemma_mod_multiples_basic(q, one);
    vstd::arithmetic::div_mod::lemma_mod_multiples_basic(-q, one);
}

} // verus!
