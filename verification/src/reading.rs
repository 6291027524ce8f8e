//! A raw sensor reading: a binary64 number kept as its 64-bit pattern, so that
//! range tests and truncation are exact integer arithmetic.

use vstd::arithmetic::power2::{lemma2_to64, lemma_pow2_pos, lemma_pow2_strictly_increases, pow2};
use vstd::bits::lemma_u64_shr_is_div;
use vstd::prelude::*;

verus! {

/// Lowest whole number of degrees that is no longer accepted.
pub const DEGREES_FLOOR: i64 = -101;

/// Highest whole number of degrees that is no longer accepted.
pub const DEGREES_CEILING: i64 = 151;

/// A number in IEEE 754 binary64 format: one sign bit, eleven exponent bits
/// and fifty-two fraction bits, from the most significant bit down.
#[derive(Clone, Copy, Debug, PartialEq, Eq, Structural)]
pub struct Reading {
    pub bits: u64,
}

impl Reading {
    /// The sign bit is set.
    pub open spec fn negative(self) -> bool {
        self.bits >= 0x8000_0000_0000_0000
    }

    /// The eleven exponent bits.
    pub open spec fn exponent(self) -> int {
        (self.bits as int / 0x10_0000_0000_0000) % 0x800
    }

    /// The fifty-two fraction bits.
    pub open spec fn fraction(self) -> int {
        self.bits as int % 0x10_0000_0000_0000
    }

    /// The pattern stands for a number, not for an infinity or a NaN.
    pub open spec fn finite(self) -> bool {
        self.exponent() != 0x7ff
    }

    /// The integer `m` with `|value| == m * 2^scale()`.
    pub open spec fn significand(self) -> int {
        if self.exponent() == 0 {
            self.fraction()
        } else {
            self.fraction() + 0x10_0000_0000_0000
        }
    }

    /// The exponent of two that scales `significand()`.
    pub open spec fn scale(self) -> int {
        if self.exponent() == 0 {
            -1074
        } else {
            self.exponent() - 1075
        }
    }

    /// The significand with the sign of the number.
    pub open spec fn signed_significand(self) -> int {
        if self.negative() {
            -self.significand()
        } else {
            self.significand()
        }
    }

    /// The number is finite and strictly less than `bound`.
    pub open spec fn less_than(self, bound: int) -> bool {
        self.finite() && if self.scale() >= 0 {
            self.signed_significand() * pow2(self.scale() as nat) < bound
        } else {
            self.signed_significand() < bound * pow2((-self.scale()) as nat)
        }
    }

    /// The number is finite and strictly greater than `bound`.
    pub open spec fn greater_than(self, bound: int) -> bool {
        self.finite() && if self.scale() >= 0 {
            self.signed_significand() * pow2(self.scale() as nat) > bound
        } else {
            self.signed_significand() > bound * pow2((-self.scale()) as nat)
        }
    }

    /// The whole part of the magnitude of a finite number.
    pub open spec fn whole_magnitude(self) -> int {
        if self.scale() >= 0 {
            self.significand() * pow2(self.scale() as nat)
        } else {
            self.significand() / (pow2((-self.scale()) as nat) as int)
        }
    }

    /// A finite number rounded toward zero to a whole number.
    pub open spec fn truncated(self) -> int {
        if self.negative() {
            -self.whole_magnitude()
        } else {
            self.whole_magnitude()
        }
    }

    /// The number lies strictly between the two limits for degrees.
    pub open spec fn in_range(self) -> bool {
        self.greater_than(DEGREES_FLOOR as int) && self.less_than(DEGREES_CEILING as int)
    }

    /// The whole degrees of a reading in range; nothing for any other reading.
    pub open spec fn degrees_spec(self) -> Option<int> {
        if self.in_range() {
            Some(self.truncated())
        } else {
            None
        }
    }

    /// Wraps a bit pattern.
    pub fn from_bits(bits: u64) -> (r: Reading)
        ensures
            r.bits == bits,
    {
        Reading { bits }
    }

    /// The whole degrees of a reading that lies strictly between -101 and 151,
    /// rounded toward zero; `None` for a reading outside, an infinity or a NaN.
    pub fn degrees(&self) -> (r: Option<i64>)
        ensures
            match r {
                Some(d) => self.degrees_spec() == Some(d as int) && DEGREES_FLOOR < d < DEGREES_CEILING,
                None => self.degrees_spec() is None,
            },
    {
        let bits: u64 = self.bits;
        let exponent: u64 = (bits >> 52) & 0x7ff;
        let fraction: u64 = bits & 0xf_ffff_ffff_ffff;
        let negative: bool = (bits >> 63) == 1;
        proof {
            assert((bits >> 52) & 0x7ff == (bits / 0x10_0000_0000_0000) % 0x800) by (bit_vector);
            assert(bits & 0xf_ffff_ffff_ffff == bits % 0x10_0000_0000_0000) by (bit_vector);
            assert(((bits >> 63) == 1) == (bits >= 0x8000_0000_0000_0000)) by (bit_vector);
            lemma2_to64();
        }
        if exponent >= 1075 {
            proof {
                if self.finite() {
                    let p = self.scale() as nat;
                    lemma_pow2_pos(p);
                    let m = self.significand();
                    assert(m * pow2(p) >= m && (-m) * pow2(p) <= -m) by (nonlinear_arith)
                        requires
                            m >= 0,
                            pow2(p) >= 1,
                    ;
                }
            }
            return None;
        }
        let significand: u64 = if exponent == 0 {
            fraction
        } else {
            fraction + 0x10_0000_0000_0000
        };
        let shift: u64 = if exponent == 0 {
            1074
        } else {
            1075 - exponent
        };
        let whole: u64 = if shift >= 64 {
            0
        } else {
            significand >> shift
        };
        proof {
            let d = pow2(shift as nat) as int;
            lemma_pow2_pos(shift as nat);
            if shift >= 64 {
                if shift > 64 {
                    lemma_pow2_strictly_increases(64, shift as nat);
                }
                assert(significand as int / d == 0) by (nonlinear_arith)
                    requires
                        0 <= significand < d,
                ;
            } else {
                lemma_u64_shr_is_div(significand, shift);
            }
            lemma_floor_below(significand as int, d, DEGREES_CEILING as int);
            lemma_floor_below(significand as int, d, -(DEGREES_FLOOR as int));
            assert(-(significand as int) < DEGREES_CEILING * d) by (nonlinear_arith)
                requires
                    significand >= 0,
                    d > 0,
            ;
            assert(significand as int > DEGREES_FLOOR * d) by (nonlinear_arith)
                requires
                    significand >= 0,
                    d > 0,
            ;
        }
        if negative {
            if whole < 101 {
                Some(-(whole as i64))
            } else {
                None
            }
        } else {
            if whole < 151 {
                Some(whole as i64)
            } else {
                None
            }
        }
    }
}

/// For a non-negative `m` and a positive `d`, the whole part of `m / d` is
/// below `b` exactly when `m` is below `b * d`.
pub proof fn lemma_floor_below(m: int, d: int, b: int)
    by (nonlinear_arith)
    requires
        0 <= m,
        0 < d,
    ensures
        (m / d < b) <==> (m < b * d),
{
}

/// The whole degrees of a reading in range lie strictly between the limits.
pub proof fn lemma_truncated_in_range(reading: Reading)
    requires
        reading.in_range(),
    ensures
        DEGREES_FLOOR < reading.truncated() < DEGREES_CEILING,
{
    let d = pow2((-reading.scale()) as nat) as int;
    let m = reading.significand();
    if reading.scale() >= 0 {
        let p = reading.scale() as nat;
        lemma_pow2_pos(p);
        assert(m * pow2(p) >= m && (-m) * pow2(p) <= -m) by (nonlinear_arith)
            requires
                m >= 0,
                pow2(p) >= 1,
        ;
    } else {
        lemma_pow2_pos((-reading.scale()) as nat);
        lemma_floor_below(m, d, DEGREES_CEILING as int);
        lemma_floor_below(m, d, -(DEGREES_FLOOR as int));
        assert(m / d >= 0) by (nonlinear_arith)
            requires
                m >= 0,
                d > 0,
        ;
    }
}

} // verus!
