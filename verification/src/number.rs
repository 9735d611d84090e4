//! Configuration numbers, held as their IEEE 754 bit patterns.
//!
//! Numbers read from a Lua config are doubles (and draw colours singles). The library
//! keeps each as the bit pattern that `f64::to_bits` (`f32::to_bits`) gives, and decides
//! the checks the configuration needs (finite, positive, ordered) from the bits exactly
//! as the IEEE 754 comparisons would.
use vstd::prelude::*;
use vstd::arithmetic::power2::{lemma2_to64, lemma_pow2_adds, lemma_pow2_pos, pow2};
use vstd::bits::{lemma_u64_shl_is_mul, lemma_u64_shr_is_div};

verus! {

/// A double-precision number, as its bit pattern.
#[derive(Debug, Clone, Copy, PartialEq, Eq, Structural)]
pub struct Double(pub u64);

/// A single-precision number, as its bit pattern.
#[derive(Debug, Clone, Copy, PartialEq, Eq, Structural)]
pub struct Single(pub u32);

/// The sign bit of a double.
pub const DOUBLE_SIGN: u64 = 0x8000_0000_0000_0000;

/// The bit pattern of positive infinity: all exponent bits set, no mantissa bits.
pub const DOUBLE_INFINITY: u64 = 0x7FF0_0000_0000_0000;

/// The sign bit of a single.
pub const SINGLE_SIGN: u32 = 0x8000_0000;

/// The bit pattern of single-precision positive infinity.
pub const SINGLE_INFINITY: u32 = 0x7F80_0000;

impl Double {
    /// The bits other than the sign: exponent and mantissa.
    pub open spec fn magnitude(self) -> int {
        if self.0 >= DOUBLE_SIGN {
            self.0 - DOUBLE_SIGN
        } else {
            self.0 as int
        }
    }

    /// Not a number: all exponent bits set and some mantissa bit set.
    pub open spec fn is_nan_spec(self) -> bool {
        self.magnitude() > DOUBLE_INFINITY
    }

    /// Neither infinite nor NaN: some exponent bit clear.
    pub open spec fn is_finite_spec(self) -> bool {
        self.magnitude() < DOUBLE_INFINITY
    }

    /// A key that orders numbers that are not NaN as their values are ordered, with both
    /// zeros at 0.
    pub open spec fn order_key(self) -> int {
        if self.0 >= DOUBLE_SIGN {
            -self.magnitude()
        } else {
            self.magnitude()
        }
    }

    /// `self <= 0.0`.
    pub open spec fn le_zero_spec(self) -> bool {
        !self.is_nan_spec() && self.order_key() <= 0
    }

    /// `self < 0.0`.
    pub open spec fn lt_zero_spec(self) -> bool {
        !self.is_nan_spec() && self.order_key() < 0
    }

    /// `self < other`.
    pub open spec fn lt_spec(self, other: Double) -> bool {
        !self.is_nan_spec() && !other.is_nan_spec() && self.order_key() < other.order_key()
    }

    fn magnitude_exec(self) -> (m: u64)
        ensures
            m as int == self.magnitude(),
    {
        if self.0 >= DOUBLE_SIGN {
            self.0 - DOUBLE_SIGN
        } else {
            self.0
        }
    }

    /// Whether the number is finite (`f64::is_finite`).
    pub fn is_finite(self) -> (r: bool)
        ensures
            r == self.is_finite_spec(),
    {
        self.magnitude_exec() < DOUBLE_INFINITY
    }

    /// Whether the number is NaN (`f64::is_nan`).
    pub fn is_nan(self) -> (r: bool)
        ensures
            r == self.is_nan_spec(),
    {
        self.magnitude_exec() > DOUBLE_INFINITY
    }

    /// `self <= 0.0`.
    pub fn le_zero(self) -> (r: bool)
        ensures
            r == self.le_zero_spec(),
    {
        let m = self.magnitude_exec();
        if m > DOUBLE_INFINITY {
            false
        } else {
            m == 0 || self.0 >= DOUBLE_SIGN
        }
    }

    /// `self < 0.0`.
    pub fn lt_zero(self) -> (r: bool)
        ensures
            r == self.lt_zero_spec(),
    {
        let m = self.magnitude_exec();
        if m > DOUBLE_INFINITY {
            false
        } else {
            m != 0 && self.0 >= DOUBLE_SIGN
        }
    }

    /// `self < other`.
    pub fn lt(self, other: Double) -> (r: bool)
        ensures
            r == self.lt_spec(other),
    {
        let a = self.magnitude_exec();
        let b = other.magnitude_exec();
        if a > DOUBLE_INFINITY || b > DOUBLE_INFINITY {
            return false;
        }
        let a_neg = self.0 >= DOUBLE_SIGN;
        let b_neg = other.0 >= DOUBLE_SIGN;
        if a_neg && b_neg {
            a > b
        } else if a_neg {
            !(a == 0 && b == 0)
        } else if b_neg {
            false
        } else {
            a < b
        }
    }
}

/// 2^52: the weight of the lowest exponent bit, and the hidden bit of a normal double.
pub const DOUBLE_HIDDEN_BIT: u64 = 0x10_0000_0000_0000;

impl Double {
    /// The biased exponent: the eleven bits after the sign.
    pub open spec fn biased_exponent(self) -> int {
        self.magnitude() / DOUBLE_HIDDEN_BIT as int
    }

    /// The significand of a normal number: the mantissa bits under the hidden bit.
    pub open spec fn significand(self) -> int {
        DOUBLE_HIDDEN_BIT + self.magnitude() % DOUBLE_HIDDEN_BIT as int
    }

    /// The size of the whole part of the number, rounded toward zero: the significand
    /// scaled by 2^(exponent - 1075); numbers below one (the subnormals and zeros among
    /// them) have none.
    pub open spec fn whole_magnitude(self) -> int {
        let e = self.biased_exponent();
        if e < 1023 {
            0
        } else if e >= 1075 {
            self.significand() * pow2((e - 1075) as nat)
        } else {
            self.significand() / pow2((1075 - e) as nat) as int
        }
    }

    /// What `self as i64` gives: the whole part rounded toward zero, the nearest end of
    /// the range of `i64` for numbers beyond it (infinities included), and 0 for NaN.
    pub open spec fn as_i64_spec(self) -> i64 {
        if self.is_nan_spec() {
            0
        } else {
            let v = if self.0 >= DOUBLE_SIGN { -self.whole_magnitude() } else { self.whole_magnitude() };
            if v > i64::MAX {
                i64::MAX
            } else if v < i64::MIN {
                i64::MIN
            } else {
                v as i64
            }
        }
    }

    /// The number as `self as i64` converts it (see `as_i64_spec`).
    pub fn to_i64(self) -> (r: i64)
        ensures
            r == self.as_i64_spec(),
    {
        if self.is_nan() {
            return 0;
        }
        let negative = self.0 >= DOUBLE_SIGN;
        let mag = self.magnitude_exec();
        let e = mag / DOUBLE_HIDDEN_BIT;
        let sig = DOUBLE_HIDDEN_BIT + mag % DOUBLE_HIDDEN_BIT;
        proof {
            lemma2_to64();
            lemma_pow2_adds(32, 20);
            assert(pow2(52) == DOUBLE_HIDDEN_BIT);
            assert(e < 2048);
        }
        if e < 1023 {
            return 0;
        }
        if e >= 1086 {
            proof {
                let k = (e - 1086) as nat;
                lemma_pow2_adds(11, k);
                lemma_pow2_pos(k);
                assert(pow2(11) == 2048);
                assert(sig * pow2((e - 1075) as nat) >= 0x8000_0000_0000_0000) by (nonlinear_arith)
                    requires
                        sig >= 0x10_0000_0000_0000,
                        pow2((e - 1075) as nat) == pow2(11) * pow2(k),
                        pow2(11) == 2048,
                        pow2(k) >= 1,
                ;
            }
            return if negative { i64::MIN } else { i64::MAX };
        }
        let w: u64 = if e >= 1075 {
            let k = e - 1075;
            proof {
                assert(k <= 10);
                if k < 10 {
                    vstd::arithmetic::power2::lemma_pow2_strictly_increases(k as nat, 10);
                }
                assert(pow2(10) == 1024);
                assert(sig * pow2(k as nat) < 0x8000_0000_0000_0000) by (nonlinear_arith)
                    requires
                        sig < 0x20_0000_0000_0000,
                        pow2(k as nat) <= 1024,
                ;
                lemma_u64_shl_is_mul(sig, k);
            }
            sig << k
        } else {
            let k = 1075 - e;
            proof {
                lemma_u64_shr_is_div(sig, k);
                lemma_pow2_pos(k as nat);
                assert(sig as nat / pow2(k as nat) <= sig) by (nonlinear_arith)
                    requires
                        pow2(k as nat) >= 1,
                ;
            }
            sig >> k
        };
        assert(w as int == self.whole_magnitude());
        assert(w < 0x8000_0000_0000_0000);
        if negative {
            -(w as i64)
        } else {
            w as i64
        }
    }
}

impl Single {
    pub open spec fn magnitude(self) -> int {
        if self.0 >= SINGLE_SIGN {
            self.0 - SINGLE_SIGN
        } else {
            self.0 as int
        }
    }

    /// Neither infinite nor NaN.
    pub open spec fn is_finite_spec(self) -> bool {
        self.magnitude() < SINGLE_INFINITY
    }

    /// Whether the number lies in `0.0..=1.0` (both zeros included, NaN excluded): the
    /// bit patterns of the non-negative singles up to 1.0 and that of -0.0.
    pub open spec fn in_unit_interval_spec(self) -> bool {
        self.0 <= 0x3F80_0000 || self.0 == SINGLE_SIGN
    }

    /// Whether `(0.0..=1.0).contains(&self)`.
    pub fn in_unit_interval(self) -> (r: bool)
        ensures
            r == self.in_unit_interval_spec(),
    {
        self.0 <= 0x3F80_0000 || self.0 == SINGLE_SIGN
    }

    /// Whether the number is finite (`f32::is_finite`).
    pub fn is_finite(self) -> (r: bool)
        ensures
            r == self.is_finite_spec(),
    {
        let m = if self.0 >= SINGLE_SIGN {
            self.0 - SINGLE_SIGN
        } else {
            self.0
        };
        m < SINGLE_INFINITY
    }
}

} // verus!
