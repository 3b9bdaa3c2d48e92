//! Decimal fixed-point numbers with saturating arithmetic.

use vstd::prelude::*;

verus! {

/// Raw units in one whole: a [`Fixed`] carries nine decimal places.
pub const SCALE: i64 = 1_000_000_000;

/// A signed decimal fixed-point number. The number it stands for is
/// `raw / SCALE`; every `i64` is a valid `raw`.
#[derive(Clone, Copy, Debug, PartialEq, Eq, Structural)]
pub struct Fixed {
    pub raw: i64,
}

/// The integer of the `i64` range that is nearest to `v`.
pub open spec fn saturate(v: int) -> int {
    if v < i64::MIN {
        i64::MIN as int
    } else if v > i64::MAX {
        i64::MAX as int
    } else {
        v
    }
}

/// `v / SCALE`, rounded to the nearest integer, halves away from zero.
pub open spec fn rescale(v: int) -> int {
    if v >= 0 {
        (v + SCALE / 2) / (SCALE as int)
    } else {
        -((-v + SCALE / 2) / (SCALE as int))
    }
}

/// The fixed-point number of `v` raw units, saturated to the range of the type.
pub open spec fn fixed(v: int) -> Fixed {
    Fixed { raw: saturate(v) as i64 }
}

impl Fixed {
    /// The sum of two numbers, saturated.
    pub open spec fn spec_add(self, rhs: Fixed) -> Fixed {
        fixed(self.raw + rhs.raw)
    }

    /// The difference of two numbers, saturated.
    pub open spec fn spec_sub(self, rhs: Fixed) -> Fixed {
        fixed(self.raw - rhs.raw)
    }

    /// The product of two numbers, rounded to the nearest unit and saturated.
    pub open spec fn spec_mul(self, rhs: Fixed) -> Fixed {
        fixed(rescale(self.raw * rhs.raw))
    }

    /// The number of `raw` units.
    pub fn from_raw(raw: i64) -> (r: Fixed)
        ensures
            r.raw == raw,
    {
        Fixed { raw }
    }

    /// The number of `v` raw units, saturated to the range of the type.
    pub fn saturating_from(v: i128) -> (r: Fixed)
        ensures
            r == fixed(v as int),
    {
        if v < i64::MIN as i128 {
            Fixed { raw: i64::MIN }
        } else if v > i64::MAX as i128 {
            Fixed { raw: i64::MAX }
        } else {
            Fixed { raw: v as i64 }
        }
    }

    /// The whole number `n`, saturated.
    pub fn from_int(n: i64) -> (r: Fixed)
        ensures
            r == fixed(n * SCALE),
    {
        let unit: i128 = SCALE as i128;
        assert(unit == 1_000_000_000);
        Fixed::saturating_from(n as i128 * unit)
    }

    /// The quotient `num / den`, rounded down to the unit below and
    /// saturated.
    pub fn ratio(num: usize, den: usize) -> (r: Fixed)
        requires
            den > 0,
        ensures
            r == fixed(num * SCALE / (den as int)),
    {
        let scaled: u128 = num as u128 * SCALE as u128;
        let q: u128 = scaled / den as u128;
        Fixed::saturating_from(q as i128)
    }

    /// Saturating addition.
    pub fn sat_add(self, rhs: Fixed) -> (r: Fixed)
        ensures
            r == self.spec_add(rhs),
    {
        Fixed::saturating_from(self.raw as i128 + rhs.raw as i128)
    }

    /// Saturating subtraction.
    pub fn sat_sub(self, rhs: Fixed) -> (r: Fixed)
        ensures
            r == self.spec_sub(rhs),
    {
        Fixed::saturating_from(self.raw as i128 - rhs.raw as i128)
    }

    /// Saturating multiplication, rounded to the nearest unit.
    pub fn sat_mul(self, rhs: Fixed) -> (r: Fixed)
        ensures
            r == self.spec_mul(rhs),
    {
        let a: i128 = self.raw as i128;
        let b: i128 = rhs.raw as i128;
        assert(-0x4000_0000_0000_0000_0000_0000_0000_0000 <= a * b
            <= 0x4000_0000_0000_0000_0000_0000_0000_0000) by (nonlinear_arith)
            requires
                -0x8000_0000_0000_0000 <= a <= 0x7fff_ffff_ffff_ffff,
                -0x8000_0000_0000_0000 <= b <= 0x7fff_ffff_ffff_ffff,
        ;
        let p: i128 = a * b;
        let half: i128 = (SCALE / 2) as i128;
        let q: i128 = if p >= 0 {
            (p + half) / (SCALE as i128)
        } else {
            -((-p + half) / (SCALE as i128))
        };
        Fixed::saturating_from(q)
    }
}

} // verus!
