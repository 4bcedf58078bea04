//! IEEE 754 single precision numbers, held by their bit patterns.
//!
//! Positions, bounds, colours and depths are floating point numbers that this library
//! stores, compares and hashes but never adds or multiplies. Holding the bit pattern
//! keeps every such operation an integer one, with a meaning that can be stated exactly:
//! [`Float32::value`] is the number that a pattern denotes, as a multiple of 2^-149.
use vstd::arithmetic::div_mod::{
    lemma_fundamental_div_mod, lemma_fundamental_div_mod_converse,
};
use vstd::arithmetic::mul::{
    lemma_mul_inequality, lemma_mul_is_commutative, lemma_mul_strict_inequality,
};
use vstd::arithmetic::power2::{
    lemma2_to64, lemma_pow2_adds, lemma_pow2_pos, lemma_pow2_unfold, pow2,
};
use vstd::prelude::*;

verus! {

/// The weight of the sign bit.
pub const SIGN: u32 = 0x8000_0000;

/// The weight of the lowest exponent bit: one past the largest fraction.
pub const HIDDEN: u32 = 0x80_0000;

/// The magnitude of the infinities; every larger magnitude is a NaN.
pub const INFINITE: u32 = 0x7f80_0000;

/// The pattern that stands for every NaN where patterns are hashed.
pub const CANONICAL_NAN: u32 = 0x7fc0_0000;

/// A single precision number, by its bit pattern.
#[derive(Clone, Copy, Debug)]
pub struct Float32 {
    pub bits: u32,
}

/// The number that a magnitude (a pattern without its sign) denotes, in units of 2^-149.
/// The infinities get the value that continues the scale, above all finite numbers.
pub open spec fn magnitude_value(magnitude: nat) -> nat {
    let exponent = magnitude / (HIDDEN as nat);
    let fraction = magnitude % (HIDDEN as nat);
    if exponent == 0 {
        fraction
    } else {
        (HIDDEN + fraction) as nat * pow2((exponent - 1) as nat)
    }
}

/// How many low bits of `n` do not fit in the 24 bits of a significand.
pub open spec fn excess_bits(n: nat) -> nat
    decreases n,
{
    if n < 0x100_0000 {
        0
    } else {
        1 + excess_bits(n / 2)
    }
}

/// `n` rounded to a 24 bit significand: to the nearest multiple of the lowest bit that fits,
/// and to the even one of two equally near.
pub open spec fn round_to_significand(n: nat) -> nat {
    let unit = pow2(excess_bits(n));
    let low = n / unit;
    let rest = n % unit;
    if 2 * rest > unit || (2 * rest == unit && low % 2 == 1) {
        (low + 1) * unit
    } else {
        low * unit
    }
}

/// An integer, brought into the range of `i32`.
pub open spec fn clamp_i32(x: int) -> int {
    if x > i32::MAX {
        i32::MAX as int
    } else if x < i32::MIN {
        i32::MIN as int
    } else {
        x
    }
}

impl Float32 {
    pub open spec fn negative(self) -> bool {
        self.bits >= SIGN
    }

    /// The pattern without its sign.
    pub open spec fn magnitude(self) -> nat {
        if self.negative() {
            (self.bits - SIGN) as nat
        } else {
            self.bits as nat
        }
    }

    pub open spec fn is_nan_spec(self) -> bool {
        self.magnitude() > INFINITE
    }

    /// The number itself, in units of 2^-149. It says nothing of a NaN.
    pub open spec fn value(self) -> int {
        if self.negative() {
            -(magnitude_value(self.magnitude()) as int)
        } else {
            magnitude_value(self.magnitude()) as int
        }
    }

    /// Numeric equality: no NaN equals anything, and the two zeros are equal.
    pub open spec fn num_eq(self, other: Float32) -> bool {
        !self.is_nan_spec() && !other.is_nan_spec() && self.value() == other.value()
    }

    /// Numeric order, in which no NaN takes part.
    pub open spec fn num_lt(self, other: Float32) -> bool {
        !self.is_nan_spec() && !other.is_nan_spec() && self.value() < other.value()
    }

    /// One pattern for all patterns that are hashed alike: equal numbers share theirs, and
    /// so do all NaNs.
    pub open spec fn canonical(self) -> u32 {
        if self.is_nan_spec() {
            CANONICAL_NAN
        } else if self.magnitude() == 0 {
            0
        } else {
            self.bits
        }
    }

    /// What is left of the number when its integer part is taken off, in the same units and with
    /// the same sign.
    pub open spec fn fraction(self) -> int {
        let rest = magnitude_value(self.magnitude()) % pow2(149);
        if self.negative() {
            -(rest as int)
        } else {
            rest as int
        }
    }

    /// The largest integer that is not above the number, brought into the range of `i32`;
    /// zero for a NaN.
    pub open spec fn floor_spec(self) -> int {
        if self.is_nan_spec() {
            0
        } else {
            clamp_i32(self.value() / (pow2(149) as int))
        }
    }

    /// The smallest integer that is not below the number, brought into the range of `i32`;
    /// zero for a NaN.
    pub open spec fn ceil_spec(self) -> int {
        if self.is_nan_spec() {
            0
        } else {
            clamp_i32(-((-self.value()) / (pow2(149) as int)))
        }
    }

    /// The position of a number that is no NaN in the order of all of them.
    spec fn ordinal_spec(self) -> int {
        if self.negative() {
            -(self.magnitude() as int)
        } else {
            self.magnitude() as int
        }
    }

    /// The number with this bit pattern.
    pub fn from_bits(bits: u32) -> (r: Float32)
        ensures
            r.bits == bits,
    {
        Float32 { bits }
    }

    /// The pattern without its sign.
    pub fn magnitude_bits(self) -> (r: u32)
        ensures
            r == self.magnitude(),
    {
        if self.bits >= SIGN {
            self.bits - SIGN
        } else {
            self.bits
        }
    }

    fn ordinal(self) -> (r: i64)
        ensures
            r == self.ordinal_spec(),
    {
        if self.bits >= SIGN {
            0i64 - self.magnitude_bits() as i64
        } else {
            self.magnitude_bits() as i64
        }
    }

    pub fn is_nan(self) -> (r: bool)
        ensures
            r == self.is_nan_spec(),
    {
        self.magnitude_bits() > INFINITE
    }

    /// `self > other`, as floating point compares.
    pub fn greater(self, other: Float32) -> (r: bool)
        ensures
            r == other.num_lt(self),
    {
        proof {
            lemma_ordinals_order_values(self, other);
            lemma_ordinals_order_values(other, self);
        }
        !self.is_nan() && !other.is_nan() && self.ordinal() > other.ordinal()
    }

    /// `self == other`, as floating point compares.
    pub fn equals(self, other: Float32) -> (r: bool)
        ensures
            r == self.num_eq(other),
    {
        proof {
            lemma_ordinals_order_values(self, other);
            lemma_ordinals_order_values(other, self);
        }
        !self.is_nan() && !other.is_nan() && self.ordinal() == other.ordinal()
    }

    /// The pattern to hash in place of this one.
    pub fn canonical_bits(self) -> (r: u32)
        ensures
            r == self.canonical(),
    {
        if self.is_nan() {
            CANONICAL_NAN
        } else if self.magnitude_bits() == 0 {
            0
        } else {
            self.bits
        }
    }
}

/// Two to the power `k`.
fn power_of_two(k: u32) -> (r: u64)
    requires
        k <= 32,
    ensures
        r == pow2(k as nat),
        1 <= r <= 0x1_0000_0000,
{
    let mut r: u64 = 1;
    let mut i: u32 = 0;
    proof {
        lemma2_to64();
    }
    while i < k
        invariant
            i <= k <= 32,
            r == pow2(i as nat),
            pow2(32) == 0x1_0000_0000,
        decreases k - i,
    {
        proof {
            lemma_pow2_unfold((i + 1) as nat);
            lemma_pow2_adds((i + 1) as nat, (32 - (i + 1)) as nat);
            lemma_pow2_pos((32 - (i + 1)) as nat);
            lemma_mul_inequality(1, pow2((32 - (i + 1)) as nat) as int, pow2((i + 1) as nat) as int);
            lemma_mul_is_commutative(
                pow2((i + 1) as nat) as int,
                pow2((32 - (i + 1)) as nat) as int,
            );
        }
        r = r * 2;
        i = i + 1;
    }
    proof {
        lemma_pow2_adds(k as nat, (32 - k) as nat);
        lemma_pow2_pos((32 - k) as nat);
        lemma_pow2_pos(k as nat);
        lemma_mul_inequality(1, pow2((32 - k) as nat) as int, pow2(k as nat) as int);
        lemma_mul_is_commutative(pow2(k as nat) as int, pow2((32 - k) as nat) as int);
    }
    r
}

/// The integer part of the number that a magnitude below 2^31 denotes, and whether that is
/// the whole number.
fn integer_part(magnitude: u32) -> (r: (u64, bool))
    requires
        magnitude < 158 * HIDDEN,
    ensures
        r.0 == magnitude_value(magnitude as nat) / pow2(149),
        r.1 == (magnitude_value(magnitude as nat) % pow2(149) == 0),
        r.0 < 0x8000_0000,
{
    let exponent: u32 = magnitude / HIDDEN;
    let significand: u64 = (HIDDEN + magnitude % HIDDEN) as u64;
    let ghost v = magnitude_value(magnitude as nat);
    let ghost one = pow2(149);
    proof {
        lemma_pow2_pos(149);
        lemma2_to64();
    }
    if exponent < 127 {
        proof {
            // A number below one is its own remainder.
            lemma_magnitude_value_increases(magnitude as nat, (127 * HIDDEN) as nat);
            lemma_one_is_one();
            if magnitude > 0 {
                lemma_magnitude_value_increases(0, magnitude as nat);
            }
            lemma_fundamental_div_mod_converse(v as int, one as int, 0, v as int);
        }
        (0, magnitude == 0)
    } else if exponent < 150 {
        let unit: u64 = power_of_two(150 - exponent);
        proof {
            let low = pow2((exponent - 1) as nat);
            lemma_pow2_pos((exponent - 1) as nat);
            lemma_pow2_adds((exponent - 1) as nat, (150 - exponent) as nat);
            let (q, r) = (significand as int / unit as int, significand as int % unit as int);
            lemma_fundamental_div_mod(significand as int, unit as int);
            assert(v == one * q + r * low && 0 <= r * low < one) by (nonlinear_arith)
                requires
                    v == significand * low,
                    one == low * unit,
                    significand == unit * q + r,
                    0 <= r < unit,
                    low > 0,
            ;
            lemma_fundamental_div_mod_converse(v as int, one as int, q, r * low);
            assert(r * low == 0 <==> r == 0) by (nonlinear_arith)
                requires
                    low > 0,
            ;
            assert(q <= significand) by (nonlinear_arith)
                requires
                    significand == unit * q + r,
                    0 <= r,
                    unit >= 1,
                    significand >= 0,
            ;
        }
        (significand / unit, significand % unit == 0)
    } else {
        let unit: u64 = power_of_two(exponent - 150);
        proof {
            lemma_pow2_adds(149, (exponent - 150) as nat);
            lemma_pow2_adds((exponent - 150) as nat, (157 - exponent) as nat);
            lemma_pow2_pos((157 - exponent) as nat);
            let product = significand as int * unit as int;
            assert(v == one * product) by (nonlinear_arith)
                requires
                    v == significand * pow2((exponent - 1) as nat),
                    pow2((exponent - 1) as nat) == one * unit,
                    product == significand * unit,
            ;
            lemma_fundamental_div_mod_converse(v as int, one as int, product, 0);
            assert(unit <= 128) by (nonlinear_arith)
                requires
                    unit * pow2((157 - exponent) as nat) == 128,
                    pow2((157 - exponent) as nat) >= 1,
                    unit >= 0,
            ;
            assert(0 <= product < 0x8000_0000) by (nonlinear_arith)
                requires
                    product == significand * unit,
                    0 <= significand < 0x100_0000,
                    0 <= unit <= 128,
            ;
        }
        (significand * unit, true)
    }
}

impl Float32 {
    /// The number nearest to `x`, and of two equally near the one with the even
    /// significand: what a cast of `x` gives.
    pub fn from_i32(x: i32) -> (r: Float32)
        ensures
            !r.is_nan_spec(),
            r.value() == (if x < 0 {
                -(round_to_significand((-x) as nat) as int)
            } else {
                round_to_significand(x as nat) as int
            }) * pow2(149),
    {
        let n: u64 = if x < 0 {
            (0i64 - x as i64) as u64
        } else {
            x as u64
        };
        let magnitude: u32 = magnitude_of_integer(n);
        let ghost rounded = round_to_significand(n as nat);
        if x < 0 {
            proof {
                assert((-(rounded as int)) * pow2(149) == -(rounded * pow2(149))) by (nonlinear_arith);
            }
            Float32 { bits: SIGN + magnitude }
        } else {
            Float32 { bits: magnitude }
        }
    }

    /// The largest integer that is not above the number, as far as `i32` reaches.
    pub fn floor_i32(self) -> (r: i32)
        ensures
            r == self.floor_spec(),
    {
        if self.is_nan() {
            return 0;
        }
        let negative: bool = self.bits >= SIGN;
        let magnitude: u32 = self.magnitude_bits();
        if magnitude >= 158 * HIDDEN {
            proof {
                lemma_beyond_i32(magnitude as nat);
            }
            return if negative {
                i32::MIN
            } else {
                i32::MAX
            };
        }
        let (whole, exact) = integer_part(magnitude);
        proof {
            lemma_pow2_pos(149);
            lemma_negated_quotient(magnitude_value(magnitude as nat), pow2(149));
        }
        if !negative {
            whole as i32
        } else if exact {
            (0i64 - whole as i64) as i32
        } else {
            (0i64 - whole as i64 - 1) as i32
        }
    }

    /// The smallest integer that is not below the number, as far as `i32` reaches.
    pub fn ceil_i32(self) -> (r: i32)
        ensures
            r == self.ceil_spec(),
    {
        if self.is_nan() {
            return 0;
        }
        let negative: bool = self.bits >= SIGN;
        let magnitude: u32 = self.magnitude_bits();
        if magnitude >= 158 * HIDDEN {
            proof {
                lemma_beyond_i32(magnitude as nat);
            }
            return if negative {
                i32::MIN
            } else {
                i32::MAX
            };
        }
        let (whole, exact) = integer_part(magnitude);
        proof {
            lemma_pow2_pos(149);
            lemma_negated_quotient(magnitude_value(magnitude as nat), pow2(149));
        }
        if negative {
            (0i64 - whole as i64) as i32
        } else if exact || whole == 0x7fff_ffff {
            whole as i32
        } else {
            (whole + 1) as i32
        }
    }
}

/// The magnitude of the number nearest to `n`.
fn magnitude_of_integer(n: u64) -> (r: u32)
    requires
        n <= 0x8000_0000,
    ensures
        r <= INFINITE,
        magnitude_value(r as nat) == round_to_significand(n as nat) * pow2(149),
{
    proof {
        lemma2_to64();
        lemma_pow2_pos(149);
    }
    if n == 0 {
        assert(excess_bits(0) == 0);
        return 0;
    }
    let mut unit: u64 = 1;
    let mut dropped: u32 = 0;
    while n / unit >= 0x100_0000
        invariant
            0 < n <= 0x8000_0000,
            unit == pow2(dropped as nat),
            1 <= unit <= n,
            dropped <= 8,
            unit == 1 || 2 * (n / unit) >= 0x100_0000,
            pow2(8) == 256,
            excess_bits(n as nat) == dropped + excess_bits((n / unit) as nat),
        decreases n / unit,
    {
        proof {
            lemma_pow2_unfold((dropped + 1) as nat);
            vstd::arithmetic::div_mod::lemma_div_denominator(n as int, unit as int, 2);
            lemma_fundamental_div_mod(n as int, unit as int);
            assert(unit <= 128) by (nonlinear_arith)
                requires
                    n <= 0x8000_0000,
                    n == unit * (n / unit) + n % unit,
                    n % unit >= 0,
                    n / unit >= 0x100_0000,
            ;
            if dropped == 8 {
                assert(false);
            }
        }
        unit = unit * 2;
        dropped = dropped + 1;
    }
    let low: u64 = n / unit;
    let rest: u64 = n % unit;
    let kept: u64 = if 2 * rest > unit || (2 * rest == unit && low % 2 == 1) {
        low + 1
    } else {
        low
    };
    let ghost scale = (149 + dropped) as nat;
    proof {
        assert(excess_bits(low as nat) == 0);
        lemma_fundamental_div_mod(n as int, unit as int);
        assert(low >= 1) by (nonlinear_arith)
            requires
                n == unit * low + rest,
                rest < unit,
                unit <= n,
        ;
        assert(round_to_significand(n as nat) == kept * unit);
        lemma_pow2_adds(149, dropped as nat);
        assert((kept * unit) * pow2(149) == kept * pow2(scale)) by (nonlinear_arith)
            requires
                pow2(scale) == pow2(149) * unit,
        ;
    }
    let mut significand: u64 = kept;
    let mut power: u32 = 149 + dropped;
    if significand == 0x100_0000 {
        proof {
            lemma_pow2_unfold((power + 1) as nat);
            assert(0x80_0000 * pow2((power + 1) as nat) == 0x100_0000 * pow2(power as nat));
        }
        significand = 0x80_0000;
        power = power + 1;
    }
    proof {
        if significand < 0x80_0000 {
            lemma_pow2_adds(49, dropped as nat);
            lemma_pow2_pos(49);
            assert(significand * (pow2(49) * unit) >= pow2(49)) by (nonlinear_arith)
                requires
                    significand >= 1,
                    unit >= 1,
                    pow2(49) >= 1,
            ;
        }
    }
    while significand < 0x80_0000
        invariant
            1 <= significand < 0x100_0000,
            100 <= power <= 158,
            significand * pow2(power as nat) == kept * pow2(scale),
            significand < 0x80_0000 ==> significand * pow2((power - 100) as nat) >= pow2(49),
            pow2(23) == 0x80_0000,
        decreases 0x100_0000 - significand,
    {
        proof {
            if power == 100 {
                assert(pow2(0) == 1) by {
                    lemma2_to64();
                }
                lemma_pow2_adds(23, 26);
                lemma_pow2_pos(26);
                lemma_mul_inequality(1, pow2(26) as int, pow2(23) as int);
                lemma_mul_is_commutative(pow2(23) as int, pow2(26) as int);
                assert(false);
            }
            lemma_pow2_unfold(power as nat);
            lemma_pow2_unfold((power - 100) as nat);
            assert((2 * significand) * pow2((power - 1) as nat) == significand * (2 * pow2(
                (power - 1) as nat,
            ))) by (nonlinear_arith);
            assert((2 * significand) * pow2((power - 101) as nat) == significand * (2 * pow2(
                (power - 101) as nat,
            ))) by (nonlinear_arith);
        }
        significand = significand * 2;
        power = power - 1;
    }
    let magnitude: u32 = (power + 1) * HIDDEN + (significand as u32 - HIDDEN);
    proof {
        lemma_fundamental_div_mod_converse(
            magnitude as int,
            HIDDEN as int,
            (power + 1) as int,
            significand as int - HIDDEN,
        );
    }
    magnitude
}

/// One is the magnitude with exponent 127 and no fraction.
proof fn lemma_one_is_one()
    ensures
        magnitude_value((127 * HIDDEN) as nat) == pow2(149),
{
    let one = (127 * HIDDEN) as nat;
    lemma_fundamental_div_mod_converse(one as int, HIDDEN as int, 127, 0);
    lemma2_to64();
    lemma_pow2_adds(23, 126);
}

/// From exponent 158 on, magnitudes are 2^31 and above.
proof fn lemma_beyond_i32(magnitude: nat)
    requires
        magnitude >= 158 * HIDDEN,
    ensures
        magnitude_value(magnitude) as int / (pow2(149) as int) >= 0x8000_0000,
        (-(magnitude_value(magnitude) as int)) / (pow2(149) as int) <= -0x8000_0000,
{
    let least = (158 * HIDDEN) as nat;
    let v = magnitude_value(magnitude) as int;
    let one = pow2(149) as int;
    if magnitude > least {
        lemma_magnitude_value_increases(least, magnitude);
    }
    lemma_fundamental_div_mod_converse(least as int, HIDDEN as int, 158, 0);
    lemma2_to64();
    lemma_pow2_adds(8, 149);
    lemma_pow2_pos(149);
    assert(v >= 0x8000_0000 * one) by (nonlinear_arith)
        requires
            v >= 0x80_0000 * pow2(157),
            pow2(157) == 256 * one,
    ;
    lemma_fundamental_div_mod(v, one);
    lemma_fundamental_div_mod(-v, one);
    assert(v / one >= 0x8000_0000) by (nonlinear_arith)
        requires
            v == one * (v / one) + v % one,
            v % one < one,
            one > 0,
            v >= 0x8000_0000 * one,
    ;
    assert((-v) / one <= -0x8000_0000) by (nonlinear_arith)
        requires
            -v == one * ((-v) / one) + (-v) % one,
            (-v) % one >= 0,
            one > 0,
            v >= 0x8000_0000 * one,
    ;
}

/// Rounding down the negation of a quotient.
proof fn lemma_negated_quotient(v: nat, d: nat)
    requires
        d > 0,
    ensures
        (-(v as int)) / (d as int) == (if v % d == 0 {
            -((v / d) as int)
        } else {
            -((v / d) as int) - 1
        }),
{
    let (q, r) = ((v / d) as int, (v % d) as int);
    lemma_fundamental_div_mod(v as int, d as int);
    if r == 0 {
        assert(-(v as int) == d * (-q)) by (nonlinear_arith)
            requires
                v == d * q,
        ;
        lemma_fundamental_div_mod_converse(-(v as int), d as int, -q, 0);
    } else {
        assert(-(v as int) == d * (-q - 1) + (d - r)) by (nonlinear_arith)
            requires
                v == d * q + r,
        ;
        lemma_fundamental_div_mod_converse(-(v as int), d as int, -q - 1, d - r);
    }
}

/// A larger magnitude denotes a larger number.
proof fn lemma_magnitude_value_increases(a: nat, b: nat)
    requires
        a < b,
    ensures
        magnitude_value(a) < magnitude_value(b),
{
    let h = HIDDEN as nat;
    let (ea, fa) = (a / h, a % h);
    let (eb, fb) = (b / h, b % h);
    lemma_fundamental_div_mod(a as int, h as int);
    lemma_fundamental_div_mod(b as int, h as int);
    if ea == eb {
        if ea != 0 {
            lemma_pow2_pos((ea - 1) as nat);
            lemma_mul_strict_inequality((h + fa) as int, (h + fb) as int, pow2((ea - 1) as nat) as int);
        }
    } else {
        assert(ea < eb);
        lemma_pow2_pos((eb - 1) as nat);
        lemma_mul_inequality(h as int, (h + fb) as int, pow2((eb - 1) as nat) as int);
        if ea == 0 {
            lemma_mul_inequality(1, pow2((eb - 1) as nat) as int, h as int);
            lemma_mul_is_commutative(h as int, pow2((eb - 1) as nat) as int);
        } else {
            let low = pow2((ea - 1) as nat);
            lemma_pow2_pos((ea - 1) as nat);
            lemma_mul_strict_inequality((h + fa) as int, 2 * h as int, low as int);
            lemma_pow2_unfold(ea);
            lemma_pow2_adds(ea, (eb - 1 - ea) as nat);
            lemma_pow2_pos((eb - 1 - ea) as nat);
            lemma_pow2_pos(ea);
            lemma_mul_inequality(1, pow2((eb - 1 - ea) as nat) as int, pow2(ea) as int);
            lemma_mul_is_commutative(pow2(ea) as int, pow2((eb - 1 - ea) as nat) as int);
            lemma_mul_inequality(pow2(ea) as int, pow2((eb - 1) as nat) as int, h as int);
            assert((2 * h) * low == h * (2 * low)) by (nonlinear_arith);
            lemma_mul_is_commutative(h as int, pow2((eb - 1) as nat) as int);
            lemma_mul_is_commutative(h as int, pow2(ea) as int);
        }
    }
}

/// Of two numbers that are not negative, the one with the larger pattern is the larger.
pub proof fn larger_magnitudes_are_larger(a: Float32, b: Float32)
    requires
        a.bits < b.bits < SIGN,
    ensures
        a.value() < b.value(),
{
    lemma_magnitude_value_increases(a.magnitude(), b.magnitude());
}

/// Numbers are ordered as their ordinals are.
proof fn lemma_ordinals_order_values(a: Float32, b: Float32)
    ensures
        a.ordinal_spec() < b.ordinal_spec() ==> a.value() < b.value(),
        a.ordinal_spec() == b.ordinal_spec() ==> a.value() == b.value(),
{
    let (ma, mb) = (a.magnitude(), b.magnitude());
    if ma < mb {
        lemma_magnitude_value_increases(ma, mb);
    } else if mb < ma {
        lemma_magnitude_value_increases(mb, ma);
    }
    if ma > 0 {
        lemma_magnitude_value_increases(0, ma);
    }
    if mb > 0 {
        lemma_magnitude_value_increases(0, mb);
    }
    assert(magnitude_value(0) == 0);
}

/// Equal numbers are hashed alike.
pub proof fn equal_numbers_hash_alike(a: Float32, b: Float32)
    requires
        a.num_eq(b),
    ensures
        a.canonical() == b.canonical(),
{
    lemma_ordinals_order_values(a, b);
    lemma_ordinals_order_values(b, a);
}

} // verus!
