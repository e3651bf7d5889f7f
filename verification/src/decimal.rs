//! Fixed-point decimal numbers.

use vstd::prelude::*;

verus! {

/// Number of fractional units in one whole.
pub const DECIMAL_SCALE: i64 = 1_000_000;

/// Integer quotient rounded toward zero, for a positive divisor.
pub open spec fn trunc_div(a: int, b: int) -> int
    recommends
        b > 0,
{
    if a >= 0 {
        a / b
    } else {
        -((-a) / b)
    }
}

/// The nearest value to `x` in the range of `i32`.
pub open spec fn clamp_i32(x: int) -> int {
    if x < i32::MIN {
        i32::MIN as int
    } else if x > i32::MAX {
        i32::MAX as int
    } else {
        x
    }
}

/// The nearest value to `x` in the range of `i64`.
pub open spec fn clamp_i64(x: int) -> int {
    if x < i64::MIN {
        i64::MIN as int
    } else if x > i64::MAX {
        i64::MAX as int
    } else {
        x
    }
}

/// The whole number `v` in millionths.
pub open spec fn int_micros(v: int) -> int {
    v * 1_000_000
}

/// Product of two values in millionths, rounded toward zero and saturated.
pub open spec fn times_micros(a: int, b: int) -> int {
    clamp_i64(trunc_div(a * b, 1_000_000))
}

/// A whole number scaled by a factor in millionths, rounded toward zero and
/// saturated to the range of `i32`.
pub open spec fn scaled_int(v: int, factor: int) -> int {
    clamp_i32(trunc_div(v * factor, 1_000_000))
}

/// The whole part of a value in millionths, saturated to the range of `i32`.
pub open spec fn whole_part(micros: int) -> int {
    clamp_i32(trunc_div(micros, 1_000_000))
}

/// A signed decimal with six fractional digits, stored as a count of
/// millionths.
#[derive(Clone, Copy, Debug, PartialEq, Eq, Structural)]
pub struct Decimal {
    pub micros: i64,
}

fn saturate_i64(x: i128) -> (r: i64)
    ensures
        r == clamp_i64(x as int),
{
    if x < i64::MIN as i128 {
        i64::MIN
    } else if x > i64::MAX as i128 {
        i64::MAX
    } else {
        x as i64
    }
}

fn saturate_i32(x: i128) -> (r: i32)
    ensures
        r == clamp_i32(x as int),
{
    if x < i32::MIN as i128 {
        i32::MIN
    } else if x > i32::MAX as i128 {
        i32::MAX
    } else {
        x as i32
    }
}

proof fn lemma_product_bound(a: int, b: int)
    requires
        i64::MIN <= a <= i64::MAX,
        i64::MIN <= b <= i64::MAX,
    ensures
        -0x4000_0000_0000_0000_0000_0000_0000_0000 <= a * b <= 0x4000_0000_0000_0000_0000_0000_0000_0000,
{
    assert(-0x4000_0000_0000_0000_0000_0000_0000_0000 <= a * b <= 0x4000_0000_0000_0000_0000_0000_0000_0000) by (nonlinear_arith)
        requires
            -0x8000_0000_0000_0000 <= a <= 0x8000_0000_0000_0000,
            -0x8000_0000_0000_0000 <= b <= 0x8000_0000_0000_0000,
    ;
}

impl Decimal {
    /// The decimal that holds `micros` millionths.
    pub fn from_micros(micros: i64) -> (r: Decimal)
        ensures
            r.micros == micros,
    {
        Decimal { micros }
    }

    /// The decimal equal to the whole number `v`.
    pub fn from_int(v: i32) -> (r: Decimal)
        ensures
            r.micros == int_micros(v as int),
    {
        Decimal { micros: (v as i64) * DECIMAL_SCALE }
    }

    /// The whole part, rounded toward zero and saturated to `i32`.
    pub fn to_int(self) -> (r: i32)
        ensures
            r == whole_part(self.micros as int),
    {
        saturate_i32((self.micros / DECIMAL_SCALE) as i128)
    }

    /// The product with `other`, rounded toward zero and saturated.
    pub fn times(self, other: Decimal) -> (r: Decimal)
        ensures
            r.micros == times_micros(self.micros as int, other.micros as int),
    {
        proof {
            lemma_product_bound(self.micros as int, other.micros as int);
        }
        let product: i128 = (self.micros as i128) * (other.micros as i128);
        Decimal { micros: saturate_i64(product / (DECIMAL_SCALE as i128)) }
    }

    /// The whole number `v` scaled by this factor, rounded toward zero and
    /// saturated to `i32`.
    pub fn scale_int(self, v: i32) -> (r: i32)
        ensures
            r == scaled_int(v as int, self.micros as int),
    {
        proof {
            lemma_product_bound(v as int, self.micros as int);
        }
        let product: i128 = (v as i128) * (self.micros as i128);
        saturate_i32(product / (DECIMAL_SCALE as i128))
    }
}

} // verus!
