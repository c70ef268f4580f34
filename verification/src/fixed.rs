//! A scalar with exact, reproducible arithmetic.

use vstd::prelude::*;
use crate::scalar::Scalar;

verus! {

/// The raw value of the number one: `2^32`.
pub const ONE: i64 = 0x1_0000_0000;

/// A signed fixed-point number with 32 fraction bits: `raw` stands for
/// `raw / 2^32`.
///
/// Sums, differences, products and quotients that leave the range of
/// `i64` saturate at its ends; products and quotients are rounded toward
/// zero. A quotient by zero saturates in the direction of the dividend's
/// sign, and is zero where the dividend is.
#[derive(Clone, Copy, Debug, PartialEq, Eq, Structural)]
pub struct Fixed {
    pub raw: i64,
}

/// `v`, or the end of the range of `i64` that `v` lies beyond.
pub open spec fn clamped(v: int) -> i64 {
    if v > i64::MAX {
        i64::MAX
    } else if v < i64::MIN {
        i64::MIN
    } else {
        v as i64
    }
}

/// The absolute value of `v`.
pub open spec fn magnitude(v: int) -> int {
    if v < 0 {
        -v
    } else {
        v
    }
}

/// `n / d` rounded toward zero, for `d` other than zero.
pub open spec fn truncated(n: int, d: int) -> int {
    if (n < 0) == (d < 0) {
        magnitude(n) / magnitude(d)
    } else {
        -(magnitude(n) / magnitude(d))
    }
}

fn clamp(v: i128) -> (r: i64)
    ensures
        r == clamped(v as int),
{
    if v > i64::MAX as i128 {
        i64::MAX
    } else if v < i64::MIN as i128 {
        i64::MIN
    } else {
        v as i64
    }
}

fn divide(n: i128, d: i128) -> (q: i128)
    requires
        d != 0,
        -0x4000_0000_0000_0000_0000_0000_0000_0000 <= n <= 0x4000_0000_0000_0000_0000_0000_0000_0000,
        -0x4000_0000_0000_0000_0000_0000_0000_0000 <= d <= 0x4000_0000_0000_0000_0000_0000_0000_0000,
    ensures
        q == truncated(n as int, d as int),
{
    let a: i128 = if n < 0 {
        -n
    } else {
        n
    };
    let b: i128 = if d < 0 {
        -d
    } else {
        d
    };
    let q: i128 = a / b;
    assert(0 <= q <= a) by (nonlinear_arith)
        requires
            0 <= a,
            0 < b,
            q == a / b,
    ;
    if (n < 0) == (d < 0) {
        q
    } else {
        -q
    }
}

impl Scalar for Fixed {
    open spec fn of_count(n: nat) -> Fixed {
        Fixed { raw: clamped(n * ONE) }
    }

    open spec fn sum(self, other: Fixed) -> Fixed {
        Fixed { raw: clamped(self.raw + other.raw) }
    }

    open spec fn difference(self, other: Fixed) -> Fixed {
        Fixed { raw: clamped(self.raw - other.raw) }
    }

    open spec fn product(self, other: Fixed) -> Fixed {
        Fixed { raw: clamped(truncated(self.raw * other.raw, ONE as int)) }
    }

    open spec fn quotient(self, other: Fixed) -> Fixed {
        if other.raw != 0 {
            Fixed { raw: clamped(truncated(self.raw * ONE, other.raw as int)) }
        } else if self.raw > 0 {
            Fixed { raw: i64::MAX }
        } else if self.raw < 0 {
            Fixed { raw: i64::MIN }
        } else {
            Fixed { raw: 0 }
        }
    }

    open spec fn positive(self) -> bool {
        self.raw > 0
    }

    fn from_count(n: usize) -> (r: Fixed) {
        let wide: i128 = n as i128;
        assert(wide * ONE <= 0x1_0000_0000_0000_0000 * 0x1_0000_0000) by (nonlinear_arith)
            requires
                0 <= wide <= 0x1_0000_0000_0000_0000,
        ;
        assert(0 <= wide * ONE) by (nonlinear_arith)
            requires
                0 <= wide,
        ;
        Fixed { raw: clamp(wide * (ONE as i128)) }
    }

    fn plus(self, other: Fixed) -> (r: Fixed) {
        Fixed { raw: clamp(self.raw as i128 + other.raw as i128) }
    }

    fn minus(self, other: Fixed) -> (r: Fixed) {
        Fixed { raw: clamp(self.raw as i128 - other.raw as i128) }
    }

    fn times(self, other: Fixed) -> (r: Fixed) {
        let a: i128 = self.raw as i128;
        let b: i128 = other.raw as i128;
        assert(-0x4000_0000_0000_0000_0000_0000_0000_0000 <= a * b
            <= 0x4000_0000_0000_0000_0000_0000_0000_0000) by (nonlinear_arith)
            requires
                -0x8000_0000_0000_0000 <= a <= 0x8000_0000_0000_0000,
                -0x8000_0000_0000_0000 <= b <= 0x8000_0000_0000_0000,
        ;
        Fixed { raw: clamp(divide(a * b, ONE as i128)) }
    }

    fn over(self, other: Fixed) -> (r: Fixed) {
        if other.raw != 0 {
            let a: i128 = self.raw as i128;
            assert(-0x4000_0000_0000_0000_0000_0000_0000_0000 <= a * ONE
                <= 0x4000_0000_0000_0000_0000_0000_0000_0000) by (nonlinear_arith)
                requires
                    -0x8000_0000_0000_0000 <= a <= 0x8000_0000_0000_0000,
            ;
            Fixed { raw: clamp(divide(a * (ONE as i128), other.raw as i128)) }
        } else if self.raw > 0 {
            Fixed { raw: i64::MAX }
        } else if self.raw < 0 {
            Fixed { raw: i64::MIN }
        } else {
            Fixed { raw: 0 }
        }
    }

    fn is_positive(self) -> (r: bool) {
        self.raw > 0
    }
}

} // verus!
