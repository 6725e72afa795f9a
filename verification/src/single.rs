//! Numbers as a host counts them.
//!
//! A host that computes in floating point hands such a number over as the
//! bits of an IEEE 754 single-precision number. Nothing here computes in
//! floating point: a number is compared with another, or with 0, which can
//! be told from the bits alone, or it is brought onto the integer grid that
//! the library computes on.

use vstd::prelude::*;
use vstd::arithmetic::div_mod::{lemma_basic_div, lemma_fundamental_div_mod, lemma_mod_pos_bound};
use vstd::arithmetic::power2::{
    lemma2_to64, lemma2_to64_rest, lemma_pow2_pos, lemma_pow2_strictly_increases,
    lemma_pow2_unfold, pow2,
};
use vstd::bits::{lemma_u64_shl_is_mul, lemma_u64_shr_is_div};
use crate::FIXED_ONE;

verus! {

/// Bits of positive infinity. The patterns above it, up to the sign bit, are
/// NaN.
pub const INFINITY_BITS: u32 = 0x7F80_0000;

/// The sign bit. The patterns from it on are those below it with the sign
/// turned.
pub const SIGN_BIT: u32 = 0x8000_0000;

/// What the lowest bit of the exponent counts among the bits: 2 to the 23rd,
/// the 23 bits below it being the fraction.
pub const EXPONENT_STEP: u32 = 0x80_0000;

/// The exponent of the numbers from 1 up to 2.
pub const EXPONENT_OF_ONE: u32 = 127;

/// A single-precision number, kept as its bits.
#[derive(Debug, Clone, Copy)]
pub struct Single {
    pub bits: u32,
}

impl Single {
    /// The bits without the sign.
    pub open spec fn magnitude(self) -> int {
        if self.bits >= SIGN_BIT {
            self.bits - SIGN_BIT
        } else {
            self.bits as int
        }
    }

    /// Whether the bits stand for no number.
    pub open spec fn is_nan(self) -> bool {
        self.magnitude() > INFINITY_BITS
    }

    /// Whether the number is 0, of either sign.
    pub open spec fn is_zero(self) -> bool {
        self.magnitude() == 0
    }

    /// Whether the number is greater than 0: neither zero, nor negative, nor
    /// NaN.
    pub open spec fn is_positive(self) -> bool {
        0 < self.bits <= INFINITY_BITS
    }

    /// Whether the two are the same number: neither is NaN, and either their
    /// bits are the same or both are 0.
    pub open spec fn same_number(self, other: Single) -> bool {
        &&& !self.is_nan()
        &&& !other.is_nan()
        &&& (self.bits == other.bits || (self.is_zero() && other.is_zero()))
    }

    /// The exponent as the bits hold it: 0 for the numbers below the
    /// smallest normal one, and 127 for those from 1 up to 2.
    pub open spec fn exponent(self) -> int {
        self.magnitude() / (EXPONENT_STEP as int)
    }

    /// The bits below the exponent.
    pub open spec fn fraction(self) -> int {
        self.magnitude() % (EXPONENT_STEP as int)
    }

    /// The digits of the number as a whole number: the fraction, and before
    /// it the leading 1 that a normal number has.
    pub open spec fn significand(self) -> int {
        if self.exponent() == 0 {
            self.fraction()
        } else {
            EXPONENT_STEP + self.fraction()
        }
    }

    /// How many binary places of the significand lie behind the point: the
    /// size of the number is its significand divided by 2 to this power.
    pub open spec fn places(self) -> int {
        if self.exponent() == 0 {
            149
        } else {
            150 - self.exponent()
        }
    }

    /// The number on the grid, in units of `1 / FIXED_ONE`: cut down to the
    /// range from 0 to 1 and rounded to the nearest unit, a half going up.
    /// NaN counts as 0.
    pub open spec fn on_grid(self) -> nat {
        if !self.is_positive() {
            0
        } else if self.exponent() >= EXPONENT_OF_ONE {
            FIXED_ONE as nat
        } else {
            ((self.significand() * FIXED_ONE + pow2((self.places() - 1) as nat)) / (pow2(
                self.places() as nat,
            ) as int)) as nat
        }
    }

    /// The number with the bits `bits`.
    pub fn from_bits(bits: u32) -> (number: Single)
        ensures
            number.bits == bits,
    {
        Single { bits }
    }

    /// The bits of the number.
    pub fn to_bits(&self) -> (bits: u32)
        ensures
            bits == self.bits,
    {
        self.bits
    }

    /// Tells whether the number is greater than 0.
    pub fn is_greater_than_zero(&self) -> (positive: bool)
        ensures
            positive == self.is_positive(),
    {
        0 < self.bits && self.bits <= INFINITY_BITS
    }

    /// Tells whether the two are the same number.
    pub fn equals(&self, other: &Single) -> (same: bool)
        ensures
            same == self.same_number(*other),
    {
        let own: u32 = if self.bits >= SIGN_BIT {
            self.bits - SIGN_BIT
        } else {
            self.bits
        };
        let others: u32 = if other.bits >= SIGN_BIT {
            other.bits - SIGN_BIT
        } else {
            other.bits
        };
        own <= INFINITY_BITS && others <= INFINITY_BITS && (self.bits == other.bits || (own == 0
            && others == 0))
    }

    /// Brings the number onto the grid: cut down to the range from 0 to 1,
    /// in units of `1 / FIXED_ONE`, rounded to the nearest unit.
    pub fn to_fixed(&self) -> (units: u32)
        ensures
            units == self.on_grid(),
            units <= FIXED_ONE,
    {
        if !self.is_greater_than_zero() {
            return 0;
        }
        let exponent: u32 = self.bits / EXPONENT_STEP;
        let fraction: u32 = self.bits % EXPONENT_STEP;
        assert(exponent == self.bits / 0x80_0000 && fraction == self.bits % 0x80_0000);
        assert(exponent == self.exponent() && fraction == self.fraction());
        if exponent >= EXPONENT_OF_ONE {
            return FIXED_ONE;
        }
        let significand: u64 = if exponent == 0 {
            fraction as u64
        } else {
            EXPONENT_STEP as u64 + fraction as u64
        };
        let places: u64 = if exponent == 0 {
            149
        } else {
            150 - exponent as u64
        };
        proof {
            lemma2_to64();
            lemma2_to64_rest();
            lemma_pow2_unfold(places as nat);
            lemma_pow2_pos((places - 1) as nat);
            lemma_grid_unit_bound(*self);
        }
        assert(significand == self.significand() && places == self.places());
        assert(significand < 0x100_0000 && FIXED_ONE == 1_000_000_000);
        let product: u64 = significand * FIXED_ONE as u64;
        if places > 55 {
            proof {
                if places > 56 {
                    lemma_pow2_strictly_increases(55, (places - 1) as nat);
                }
                lemma_basic_div(
                    product + pow2((places - 1) as nat),
                    pow2(places as nat) as int,
                );
            }
            return 0;
        }
        proof {
            if places < 55 {
                lemma_pow2_strictly_increases((places - 1) as nat, 54);
            }
            lemma_u64_shl_is_mul(1, (places - 1) as u64);
        }
        let half: u64 = 1u64 << (places - 1);
        let scaled: u64 = product + half;
        proof {
            lemma_u64_shr_is_div(scaled, places);
        }
        (scaled >> places) as u32
    }
}

/// A number below 1 comes to at most `FIXED_ONE` units on the grid.
pub proof fn lemma_grid_unit_bound(number: Single)
    requires
        number.is_positive(),
        number.exponent() < EXPONENT_OF_ONE,
    ensures
        number.on_grid() <= FIXED_ONE,
        24 <= number.places() <= 149,
        0 <= number.significand() < 2 * EXPONENT_STEP,
{
    let places = number.places();
    let significand = number.significand();
    let whole = pow2(places as nat) as int;
    let half = pow2((places - 1) as nat) as int;
    lemma2_to64();
    lemma_pow2_unfold(places as nat);
    lemma_pow2_pos((places - 1) as nat);
    assert(number.magnitude() % 0x80_0000 == number.fraction());
    assert(number.magnitude() / 0x80_0000 == number.exponent());
    if places > 24 {
        lemma_pow2_strictly_increases(24, places as nat);
    }
    let scaled = significand * FIXED_ONE + half;
    lemma_fundamental_div_mod(scaled, whole);
    lemma_mod_pos_bound(scaled, whole);
    assert(scaled < whole * (FIXED_ONE + 1)) by (nonlinear_arith)
        requires
            scaled == significand * FIXED_ONE + half,
            0 <= significand < 0x100_0000,
            whole == 2 * half,
            whole >= 0x100_0000,
    ;
    assert(scaled / whole <= FIXED_ONE) by (nonlinear_arith)
        requires
            scaled == whole * (scaled / whole) + scaled % whole,
            0 <= scaled % whole,
            scaled < whole * (FIXED_ONE + 1),
            whole > 0,
    ;
}

/// The grid takes a number below 1 to the nearest unit: the two differ by
/// no more than half a unit.
pub proof fn lemma_on_grid_is_nearest(number: Single)
    requires
        number.is_positive(),
        number.exponent() < EXPONENT_OF_ONE,
    ensures
        number.on_grid() * pow2(number.places() as nat) - number.significand() * FIXED_ONE <= pow2(
            (number.places() - 1) as nat,
        ),
        number.significand() * FIXED_ONE - number.on_grid() * pow2(number.places() as nat) < pow2(
            (number.places() - 1) as nat,
        ),
{
    let places = number.places();
    let whole = pow2(places as nat) as int;
    let half = pow2((places - 1) as nat) as int;
    let scaled = number.significand() * FIXED_ONE + half;
    lemma_grid_unit_bound(number);
    lemma_pow2_unfold(places as nat);
    lemma_pow2_pos((places - 1) as nat);
    lemma_fundamental_div_mod(scaled, whole);
    lemma_mod_pos_bound(scaled, whole);
    assert(number.on_grid() * whole == whole * (scaled / whole)) by (nonlinear_arith)
        requires
            number.on_grid() == scaled / whole,
    ;
}

/// Being the same number is symmetric, and holds of every number and itself
/// but of NaN.
pub proof fn lemma_same_number(a: Single, b: Single)
    ensures
        a.same_number(b) == b.same_number(a),
        a.same_number(a) == !a.is_nan(),
        a.is_positive() ==> !a.is_nan() && !a.is_zero(),
{
}

} // verus!
