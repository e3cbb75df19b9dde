//! Fixed-point scalars.
//!
//! Every quantity the rasterizer computes with (coordinates, barycentric
//! weights, colour channels, depth values) is a [`Real`]: a signed 64-bit
//! integer `raw` that stands for the number `raw / 2^32`. Arithmetic is exact
//! up to one rounding per operation (always towards negative infinity) and
//! saturates at the two ends of the range instead of wrapping, so every
//! operation is total.
use vstd::prelude::*;

verus! {

/// The raw value of the number one.
pub const ONE_RAW: i64 = 0x1_0000_0000;

/// The raw value of the number one half.
pub const HALF_RAW: i64 = 0x8000_0000;

/// The raw value of the largest representable number; it doubles as "plus infinity".
pub const MAX_RAW: i64 = 0x7fff_ffff_ffff_ffff;

/// The raw value of the smallest representable number; it doubles as "minus infinity".
pub const MIN_RAW: i64 = -0x8000_0000_0000_0000;

/// A fixed-point number with 32 fractional bits: the value is `raw / 2^32`.
#[derive(Clone, Copy, Debug, PartialEq, Eq, Structural)]
pub struct Real {
    pub raw: i64,
}

/// Clamps a mathematical integer into the range of raw values.
pub open spec fn saturate(v: int) -> i64 {
    if v < MIN_RAW {
        MIN_RAW
    } else if v > MAX_RAW {
        MAX_RAW
    } else {
        v as i64
    }
}

/// The quotient `n / d` rounded towards negative infinity, for any non-zero `d`.
pub open spec fn floor_div(n: int, d: int) -> int
    recommends
        d != 0,
{
    if d > 0 {
        n / d
    } else {
        (-n) / (-d)
    }
}

/// Saturating floored quotient. A zero divisor yields the infinity that has
/// the sign of the dividend, and zero when the dividend is zero too.
pub open spec fn quotient(n: int, d: int) -> i64 {
    if d == 0 {
        if n > 0 {
            MAX_RAW
        } else if n < 0 {
            MIN_RAW
        } else {
            0i64
        }
    } else {
        saturate(floor_div(n, d))
    }
}

/// Bound on the magnitude of the wide intermediate values.
spec fn wide_bound() -> int {
    0x4000_0000_0000_0000_0000_0000_0000_0000
}

/// For a negative dividend and a positive divisor, the floored quotient is
/// one less than the negated quotient of the magnitude minus one.
proof fn lemma_floor_div_negative(m: int, d: int)
    requires
        m > 0,
        d > 0,
    ensures
        (-m) / d == -((m - 1) / d) - 1,
{
    let k = (m - 1) / d;
    let r = (m - 1) % d;
    vstd::arithmetic::div_mod::lemma_fundamental_div_mod(m - 1, d);
    vstd::arithmetic::div_mod::lemma_mod_bound(m - 1, d);
    assert(-m == (-k - 1) * d + (d - 1 - r)) by (nonlinear_arith)
        requires
            m - 1 == d * k + r,
    ;
    vstd::arithmetic::div_mod::lemma_fundamental_div_mod_converse(-m, d, -k - 1, d - 1 - r);
}

/// The product of two raw values stays within the wide bound.
proof fn lemma_product_bound(a: int, b: int)
    requires
        MIN_RAW <= a <= MAX_RAW,
        MIN_RAW <= b <= MAX_RAW,
    ensures
        -wide_bound() <= a * b <= wide_bound(),
{
    assert(-wide_bound() <= a * b <= wide_bound()) by (nonlinear_arith)
        requires
            -0x8000_0000_0000_0000 <= a <= 0x7fff_ffff_ffff_ffff,
            -0x8000_0000_0000_0000 <= b <= 0x7fff_ffff_ffff_ffff,
            wide_bound() == 0x4000_0000_0000_0000_0000_0000_0000_0000,
    ;
}

/// Floored division of a wide dividend by a positive divisor.
fn floor_div_wide(n: i128, d: i128) -> (q: i128)
    requires
        d > 0,
        -wide_bound() <= n <= wide_bound(),
    ensures
        q == n / d,
        q == floor_div(n as int, d as int),
{
    if n >= 0 {
        n / d
    } else {
        let m: i128 = -n;
        let k: i128 = (m - 1) / d;
        proof {
            lemma_floor_div_negative(m as int, d as int);
            vstd::arithmetic::div_mod::lemma_div_pos_is_pos(m - 1, d as int);
            vstd::arithmetic::div_mod::lemma_div_is_ordered_by_denominator(m - 1, 1, d as int);
            vstd::arithmetic::div_mod::lemma_div_basics_3(m - 1);
        }
        -k - 1
    }
}

/// Clamps a wide value into the range of raw values.
fn saturate_wide(v: i128) -> (r: i64)
    ensures
        r == saturate(v as int),
{
    if v < MIN_RAW as i128 {
        MIN_RAW
    } else if v > MAX_RAW as i128 {
        MAX_RAW
    } else {
        v as i64
    }
}

impl Real {
    /// The number zero.
    pub open spec fn zero_spec() -> Real {
        Real { raw: 0 }
    }

    /// The number one.
    pub open spec fn one_spec() -> Real {
        Real { raw: ONE_RAW }
    }

    /// The smallest representable number, used as "minus infinity".
    pub open spec fn neg_infinity_spec() -> Real {
        Real { raw: MIN_RAW }
    }

    /// The largest representable number, used as "plus infinity".
    pub open spec fn infinity_spec() -> Real {
        Real { raw: MAX_RAW }
    }

    /// The whole number `n`, saturated to the representable range.
    pub open spec fn from_int_spec(n: int) -> Real {
        Real { raw: saturate(n * ONE_RAW) }
    }

    /// Saturating sum.
    pub open spec fn add_spec(self, rhs: Real) -> Real {
        Real { raw: saturate(self.raw + rhs.raw) }
    }

    /// Saturating difference.
    pub open spec fn sub_spec(self, rhs: Real) -> Real {
        Real { raw: saturate(self.raw - rhs.raw) }
    }

    /// Saturating negation.
    pub open spec fn neg_spec(self) -> Real {
        Real { raw: saturate(-self.raw) }
    }

    /// `self * by / over` with a single rounding, towards negative infinity.
    pub open spec fn mul_div_spec(self, by: Real, over: Real) -> Real {
        Real { raw: quotient(self.raw * by.raw, over.raw as int) }
    }

    /// Saturating product, rounded towards negative infinity.
    pub open spec fn mul_spec(self, rhs: Real) -> Real {
        Real { raw: quotient(self.raw * rhs.raw, ONE_RAW as int) }
    }

    /// Saturating quotient, rounded towards negative infinity.
    pub open spec fn div_spec(self, rhs: Real) -> Real {
        Real { raw: quotient(self.raw * ONE_RAW, rhs.raw as int) }
    }

    /// The fraction `n / d` of two whole numbers, rounded towards negative infinity.
    pub open spec fn ratio_spec(n: i64, d: i64) -> Real {
        Real { raw: quotient(n * ONE_RAW, d as int) }
    }

    /// The number one half.
    pub open spec fn half_spec() -> Real {
        Real { raw: HALF_RAW }
    }

    /// The largest whole number not above the value.
    pub open spec fn floor_spec(self) -> int {
        (self.raw as int) / (ONE_RAW as int)
    }

    /// The whole part of the value: the fraction is dropped, towards zero.
    pub open spec fn trunc_spec(self) -> int {
        if self.raw >= 0 {
            (self.raw as int) / (ONE_RAW as int)
        } else {
            -((-(self.raw as int)) / (ONE_RAW as int))
        }
    }

    /// The whole part as a byte: negative values give 0, values beyond 255 give 255.
    pub open spec fn to_u8_spec(self) -> u8 {
        if self.to_u32_spec() > 255 {
            255u8
        } else {
            self.to_u32_spec() as u8
        }
    }

    /// The nearest whole number; a value halfway between two goes up.
    pub open spec fn round_spec(self) -> int {
        (self.raw + HALF_RAW) / (ONE_RAW as int)
    }

    /// The smaller of two numbers.
    pub open spec fn min_spec(self, rhs: Real) -> Real {
        if rhs.raw < self.raw {
            rhs
        } else {
            self
        }
    }

    /// The larger of two numbers.
    pub open spec fn max_spec(self, rhs: Real) -> Real {
        if rhs.raw > self.raw {
            rhs
        } else {
            self
        }
    }

    /// The value limited to the interval from `lo` to `hi`.
    pub open spec fn clamp_spec(self, lo: Real, hi: Real) -> Real {
        if self.raw < lo.raw {
            lo
        } else if self.raw > hi.raw {
            hi
        } else {
            self
        }
    }

    /// The whole part as an unsigned 32-bit number: negative values give 0,
    /// values beyond the range give the largest `u32`.
    pub open spec fn to_u32_spec(self) -> u32 {
        if self.raw < 0 {
            0u32
        } else if (self.raw as int) / (ONE_RAW as int) > u32::MAX {
            u32::MAX
        } else {
            ((self.raw as int) / (ONE_RAW as int)) as u32
        }
    }

    /// The nearest whole number as a signed 32-bit pixel coordinate,
    /// limited to the range of `i32`.
    pub open spec fn to_pixel_spec(self) -> i32 {
        if self.round_spec() > i32::MAX {
            i32::MAX
        } else {
            self.round_spec() as i32
        }
    }

    #[verifier::when_used_as_spec(zero_spec)]
    pub fn zero() -> (r: Real)
        ensures
            r == Real::zero_spec(),
    {
        Real { raw: 0 }
    }

    #[verifier::when_used_as_spec(one_spec)]
    pub fn one() -> (r: Real)
        ensures
            r == Real::one_spec(),
    {
        Real { raw: ONE_RAW }
    }

    #[verifier::when_used_as_spec(neg_infinity_spec)]
    pub fn neg_infinity() -> (r: Real)
        ensures
            r == Real::neg_infinity_spec(),
    {
        Real { raw: MIN_RAW }
    }

    #[verifier::when_used_as_spec(infinity_spec)]
    pub fn infinity() -> (r: Real)
        ensures
            r == Real::infinity_spec(),
    {
        Real { raw: MAX_RAW }
    }

    /// Converts a whole number, saturating where it does not fit.
    pub fn from_int(n: i64) -> (r: Real)
        ensures
            r == Real::from_int_spec(n as int),
    {
        proof {
            lemma_product_bound(n as int, ONE_RAW as int);
        }
        let wide: i128 = (n as i128) * (ONE_RAW as i128);
        Real { raw: saturate_wide(wide) }
    }

    /// Converts a count, saturating where it does not fit.
    pub fn from_usize(n: usize) -> (r: Real)
        ensures
            r == Real::from_int_spec(n as int),
    {
        if n >= 0x8000_0000 {
            Real { raw: MAX_RAW }
        } else {
            Real { raw: (n as i64) * ONE_RAW }
        }
    }

    #[verifier::when_used_as_spec(add_spec)]
    pub fn add(self, rhs: Real) -> (r: Real)
        ensures
            r == self.add_spec(rhs),
    {
        Real { raw: saturate_wide(self.raw as i128 + rhs.raw as i128) }
    }

    #[verifier::when_used_as_spec(sub_spec)]
    pub fn sub(self, rhs: Real) -> (r: Real)
        ensures
            r == self.sub_spec(rhs),
    {
        Real { raw: saturate_wide(self.raw as i128 - rhs.raw as i128) }
    }

    #[verifier::when_used_as_spec(neg_spec)]
    pub fn neg(self) -> (r: Real)
        ensures
            r == self.neg_spec(),
    {
        Real { raw: saturate_wide(-(self.raw as i128)) }
    }

    #[verifier::when_used_as_spec(mul_div_spec)]
    pub fn mul_div(self, by: Real, over: Real) -> (r: Real)
        ensures
            r == self.mul_div_spec(by, over),
    {
        proof {
            lemma_product_bound(self.raw as int, by.raw as int);
        }
        let product: i128 = (self.raw as i128) * (by.raw as i128);
        if over.raw == 0 {
            if product > 0 {
                Real { raw: MAX_RAW }
            } else if product < 0 {
                Real { raw: MIN_RAW }
            } else {
                Real { raw: 0 }
            }
        } else if over.raw > 0 {
            Real { raw: saturate_wide(floor_div_wide(product, over.raw as i128)) }
        } else {
            Real { raw: saturate_wide(floor_div_wide(-product, -(over.raw as i128))) }
        }
    }

    #[verifier::when_used_as_spec(ratio_spec)]
    pub fn ratio(n: i64, d: i64) -> (r: Real)
        ensures
            r == Real::ratio_spec(n, d),
    {
        (Real { raw: n }).mul_div(Real { raw: ONE_RAW }, Real { raw: d })
    }

    #[verifier::when_used_as_spec(half_spec)]
    pub fn half() -> (r: Real)
        ensures
            r == Real::half_spec(),
    {
        Real { raw: HALF_RAW }
    }

    #[verifier::when_used_as_spec(mul_spec)]
    pub fn mul(self, rhs: Real) -> (r: Real)
        ensures
            r == self.mul_spec(rhs),
    {
        self.mul_div(rhs, Real { raw: ONE_RAW })
    }

    #[verifier::when_used_as_spec(div_spec)]
    pub fn div(self, rhs: Real) -> (r: Real)
        ensures
            r == self.div_spec(rhs),
    {
        self.mul_div(Real { raw: ONE_RAW }, rhs)
    }

    pub fn floor(self) -> (r: i64)
        ensures
            r == self.floor_spec(),
    {
        let q: i128 = floor_div_wide(self.raw as i128, ONE_RAW as i128);
        q as i64
    }

    pub fn round(self) -> (r: i64)
        ensures
            r == self.round_spec(),
    {
        let q: i128 = floor_div_wide(self.raw as i128 + HALF_RAW as i128, ONE_RAW as i128);
        q as i64
    }

    #[verifier::when_used_as_spec(min_spec)]
    pub fn min(self, rhs: Real) -> (r: Real)
        ensures
            r == self.min_spec(rhs),
    {
        if rhs.raw < self.raw {
            rhs
        } else {
            self
        }
    }

    #[verifier::when_used_as_spec(max_spec)]
    pub fn max(self, rhs: Real) -> (r: Real)
        ensures
            r == self.max_spec(rhs),
    {
        if rhs.raw > self.raw {
            rhs
        } else {
            self
        }
    }

    #[verifier::when_used_as_spec(clamp_spec)]
    pub fn clamp(self, lo: Real, hi: Real) -> (r: Real)
        ensures
            r == self.clamp_spec(lo, hi),
    {
        if self.raw < lo.raw {
            lo
        } else if self.raw > hi.raw {
            hi
        } else {
            self
        }
    }

    #[verifier::when_used_as_spec(to_u32_spec)]
    pub fn to_u32(self) -> (r: u32)
        ensures
            r == self.to_u32_spec(),
    {
        if self.raw < 0 {
            0
        } else {
            let whole: i64 = self.floor();
            if whole > u32::MAX as i64 {
                u32::MAX
            } else {
                whole as u32
            }
        }
    }

    /// Drops the fraction.
    pub fn trunc(self) -> (r: i64)
        ensures
            r == self.trunc_spec(),
            i32::MIN <= r <= i32::MAX,
    {
        if self.raw >= 0 {
            self.raw / ONE_RAW
        } else {
            let magnitude: i128 = -(self.raw as i128);
            let whole: i128 = magnitude / (ONE_RAW as i128);
            (-whole) as i64
        }
    }

    #[verifier::when_used_as_spec(to_u8_spec)]
    pub fn to_u8(self) -> (r: u8)
        ensures
            r == self.to_u8_spec(),
    {
        let whole: u32 = self.to_u32();
        if whole > 255 {
            255
        } else {
            whole as u8
        }
    }

    #[verifier::when_used_as_spec(to_pixel_spec)]
    pub fn to_pixel(self) -> (r: i32)
        ensures
            r == self.to_pixel_spec(),
    {
        let whole: i64 = self.round();
        if whole > i32::MAX as i64 {
            i32::MAX
        } else {
            whole as i32
        }
    }
}

} // verus!
