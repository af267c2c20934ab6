//! Double-precision numbers held by their IEEE 754 bit pattern, and the two
//! ways in which the magnitude of a statistic becomes an integer: cutting off
//! the fractional part, and rounding a thousandfold.
//!
//! A finite number is `significand * 2^exponent`, with a sign. The
//! specifications below work on such pairs of a natural number and a power of
//! two, so that nothing is lost to rounding but where the format itself
//! rounds.

use vstd::arithmetic::div_mod::*;
use vstd::arithmetic::mul::*;
use vstd::arithmetic::power2::*;
use vstd::bits::*;
use vstd::prelude::*;

verus! {

/// The bit of the sign.
pub const SIGN_BIT: u64 = 0x8000_0000_0000_0000;

/// Two to the power of 52: the number of fraction patterns, and the implicit
/// leading bit of a normal number's significand.
pub const FRACTION_SPAN: u64 = 0x10_0000_0000_0000;

/// The biased exponent that marks infinities and NaNs.
pub const EXPONENT_SPECIAL: u64 = 2047;

/// A double-precision number, by its bits.
#[derive(Clone, Copy, Debug)]
pub struct Binary64 {
    pub bits: u64,
}

/// `floor(n * 2^e)`.
pub open spec fn scaled_floor(n: nat, e: int) -> nat {
    if e >= 0 {
        n * pow2(e as nat)
    } else {
        n / pow2((-e) as nat)
    }
}

/// `n * 2^e` rounded to the nearest integer, a half away from zero:
/// `floor(n * 2^e + 1/2)`.
pub open spec fn scaled_round(n: nat, e: int) -> nat {
    if e >= 0 {
        n * pow2(e as nat)
    } else {
        (scaled_floor(n, e + 1) + 1) / 2
    }
}

/// The number of binary digits of `n`.
pub open spec fn bit_length(n: nat) -> nat
    decreases n,
{
    if n == 0 {
        0
    } else {
        1 + bit_length(n / 2)
    }
}

/// How many low bits of `n` a significand of 53 bits cannot hold.
pub open spec fn excess_bits(n: nat) -> nat {
    if bit_length(n) > 53 {
        (bit_length(n) - 53) as nat
    } else {
        0
    }
}

/// `n / 2^k` rounded to the nearest integer, a half to the even neighbour.
pub open spec fn shift_round_even(n: nat, k: nat) -> nat {
    let quotient = n / pow2(k);
    let rest = n % pow2(k);
    if 2 * rest > pow2(k) || (2 * rest == pow2(k) && quotient % 2 == 1) {
        quotient + 1
    } else {
        quotient
    }
}

/// The integer nearest to `n` that an `i32` can hold.
pub open spec fn saturate(n: int) -> i32 {
    if n > i32::MAX {
        i32::MAX
    } else if n < i32::MIN {
        i32::MIN
    } else {
        n as i32
    }
}

impl Binary64 {
    pub open spec fn is_negative(self) -> bool {
        self.bits >= SIGN_BIT
    }

    /// The eleven exponent bits.
    pub open spec fn biased_exponent(self) -> nat {
        (self.bits as nat / FRACTION_SPAN as nat) % 2048
    }

    /// The 52 fraction bits.
    pub open spec fn fraction(self) -> nat {
        self.bits as nat % FRACTION_SPAN as nat
    }

    pub open spec fn is_nan(self) -> bool {
        self.biased_exponent() == EXPONENT_SPECIAL && self.fraction() != 0
    }

    pub open spec fn is_infinite(self) -> bool {
        self.biased_exponent() == EXPONENT_SPECIAL && self.fraction() == 0
    }

    /// The significand of a finite number: the fraction, with the implicit
    /// leading bit unless the number is subnormal.
    pub open spec fn significand(self) -> nat {
        if self.biased_exponent() == 0 {
            self.fraction()
        } else {
            self.fraction() + FRACTION_SPAN as nat
        }
    }

    /// The power of two that scales the significand of a finite number.
    pub open spec fn exponent(self) -> int {
        if self.biased_exponent() == 0 {
            -1074
        } else {
            self.biased_exponent() - 1075
        }
    }

    /// A magnitude with this number's sign.
    pub open spec fn signed(self, magnitude: nat) -> int {
        if self.is_negative() {
            -(magnitude as int)
        } else {
            magnitude as int
        }
    }

    /// The integer that a magnitude beyond every `i32` saturates to.
    pub open spec fn extreme(self) -> i32 {
        if self.is_negative() {
            i32::MIN
        } else {
            i32::MAX
        }
    }

    /// The number with its fractional part cut off, as an `i32`: zero for a
    /// NaN, the nearest `i32` where the number is out of range.
    pub open spec fn truncated(self) -> i32 {
        if self.is_nan() {
            0
        } else if self.is_infinite() {
            self.extreme()
        } else {
            saturate(self.signed(scaled_floor(self.significand(), self.exponent())))
        }
    }

    /// Significand and exponent of the double-precision product of a finite
    /// number's magnitude and 1000: the exact product, rounded to 53
    /// significant bits, a tie to the even neighbour.
    pub open spec fn thousandfold(self) -> (nat, int) {
        let product = self.significand() * 1000;
        let dropped = excess_bits(product);
        (shift_round_even(product, dropped), self.exponent() + dropped)
    }

    /// The double-precision product of the number and 1000, rounded to the
    /// nearest integer with a half away from zero, as an `i32`: zero for a
    /// NaN, the nearest `i32` where the result is out of range.
    pub open spec fn rounded_thousandths(self) -> i32 {
        if self.is_nan() {
            0
        } else if self.is_infinite() {
            self.extreme()
        } else {
            let (n, e) = self.thousandfold();
            saturate(self.signed(scaled_round(n, e)))
        }
    }

    /// The number with the given bits.
    pub fn from_bits(bits: u64) -> (number: Binary64)
        ensures
            number.bits == bits,
    {
        Binary64 { bits }
    }

    /// The bits of the number.
    pub fn to_bits(self) -> (bits: u64)
        ensures
            bits == self.bits,
    {
        self.bits
    }

    /// Cuts off the fractional part.
    pub fn truncate(self) -> (whole: i32)
        ensures
            whole == self.truncated(),
    {
        let negative = self.bits >= SIGN_BIT;
        let biased = (self.bits / FRACTION_SPAN) % 2048;
        let fraction = self.bits % FRACTION_SPAN;
        if biased == EXPONENT_SPECIAL {
            return if fraction != 0 {
                0
            } else if negative {
                i32::MIN
            } else {
                i32::MAX
            };
        }
        if biased >= 1075 {
            proof {
                let e = (biased - 1075) as nat;
                lemma_pow2_pos(e);
                lemma_mul_inequality(1, pow2(e) as int, self.significand() as int);
                lemma_mul_is_commutative(pow2(e) as int, self.significand() as int);
            }
            return if negative {
                i32::MIN
            } else {
                i32::MAX
            };
        }
        let significand = if biased == 0 {
            fraction
        } else {
            fraction + FRACTION_SPAN
        };
        let down: u64 = if biased == 0 {
            1074
        } else {
            1075 - biased
        };
        if down >= 54 {
            proof {
                lemma2_to64_rest();
                if down > 54 {
                    lemma_pow2_strictly_increases(54, down as nat);
                }
                lemma_basic_div(significand as int, pow2(down as nat) as int);
            }
            return 0;
        }
        let magnitude = significand / power_of_two(down);
        clamp(magnitude, negative)
    }

    /// Multiplies by 1000 in double precision and rounds to the nearest
    /// integer, a half away from zero.
    pub fn round_thousandths(self) -> (thousandths: i32)
        ensures
            thousandths == self.rounded_thousandths(),
    {
        let negative = self.bits >= SIGN_BIT;
        let biased = (self.bits / FRACTION_SPAN) % 2048;
        let fraction = self.bits % FRACTION_SPAN;
        if biased == EXPONENT_SPECIAL {
            return if fraction != 0 {
                0
            } else if negative {
                i32::MIN
            } else {
                i32::MAX
            };
        }
        let significand = if biased == 0 {
            fraction
        } else {
            fraction + FRACTION_SPAN
        };
        let product = significand * 1000;
        proof {
            lemma2_to64_rest();
            lemma_bit_length_at_most(product as nat, 63);
        }
        let length = count_bits(product);
        let dropped: u64 = if length > 53 {
            length - 53
        } else {
            0
        };
        let rounded = round_shift(product, dropped);
        let exponent: i64 = if biased == 0 {
            -1074
        } else {
            biased as i64 - 1075
        };
        let scale: i64 = exponent + dropped as i64;
        assert(self.thousandfold() == (rounded as nat, scale as int));
        if scale >= 0 {
            proof {
                lemma2_to64();
                lemma2_to64_rest();
                if dropped < 10 {
                    lemma_pow2_strictly_increases(dropped as nat, 10);
                }
                lemma_pow2_pos(dropped as nat);
                lemma_div_is_ordered_by_denominator(
                    product as int,
                    pow2(dropped as nat) as int,
                    1024,
                );
                lemma_pow2_pos(scale as nat);
                lemma_mul_inequality(1, pow2(scale as nat) as int, rounded as int);
                lemma_mul_is_commutative(pow2(scale as nat) as int, rounded as int);
            }
            return if negative {
                i32::MIN
            } else {
                i32::MAX
            };
        }
        let down: u64 = (-scale) as u64;
        if down >= 65 {
            proof {
                lemma2_to64_rest();
                if down > 65 {
                    lemma_pow2_strictly_increases(64, (down - 1) as nat);
                }
                lemma_basic_div(rounded as int, pow2((down - 1) as nat) as int);
            }
            return 0;
        }
        let span = power_of_two(down - 1);
        let doubled = rounded / span;
        proof {
            lemma2_to64();
            if scale == -1 {
                lemma_mul_basics(rounded as int);
                lemma_div_basics(rounded as int);
            } else {
                assert(((-(scale + 1)) as nat) == (down - 1) as nat);
            }
            assert(doubled == scaled_floor(rounded as nat, scale + 1));
        }
        clamp((doubled + 1) / 2, negative)
    }
}

/// A number below `2^limit` has at most `limit` binary digits.
pub proof fn lemma_bit_length_at_most(n: nat, limit: nat)
    requires
        n < pow2(limit),
    ensures
        bit_length(n) <= limit,
    decreases limit,
{
    if n > 0 {
        if limit == 0 {
            lemma2_to64();
        } else {
            lemma_pow2_unfold(limit);
            lemma_bit_length_at_most(n / 2, (limit - 1) as nat);
        }
    }
}

/// Two to the power of `k`.
fn power_of_two(k: u64) -> (power: u64)
    requires
        k < 64,
    ensures
        power == pow2(k as nat),
        power >= 1,
{
    proof {
        lemma_u64_pow2_no_overflow(k as nat);
        lemma_u64_shl_is_mul(1, k);
    }
    1u64 << k
}

/// Counts the binary digits of `n`.
fn count_bits(n: u64) -> (length: u64)
    ensures
        length == bit_length(n as nat),
        length <= 64,
{
    proof {
        lemma2_to64();
        lemma_bit_length_at_most(n as nat, 64);
    }
    let mut length: u64 = 0;
    let mut rest = n;
    while rest > 0
        invariant
            length + bit_length(rest as nat) == bit_length(n as nat),
            bit_length(n as nat) <= 64,
        decreases rest,
    {
        rest = rest / 2;
        length += 1;
    }
    length
}

/// Drops the `k` low bits of `n`, rounding to the nearest, a tie to even.
fn round_shift(n: u64, k: u64) -> (rounded: u64)
    requires
        k < 63,
        n < 0x8000_0000_0000_0000,
    ensures
        rounded == shift_round_even(n as nat, k as nat),
{
    let span = power_of_two(k);
    proof {
        lemma2_to64_rest();
        lemma_pow2_strictly_increases(k as nat, 63);
        lemma_div_is_ordered_by_denominator(n as int, 1, span as int);
    }
    let quotient = n / span;
    let rest = n % span;
    if 2 * rest > span || (2 * rest == span && quotient % 2 == 1) {
        quotient + 1
    } else {
        quotient
    }
}

/// Gives a magnitude its sign and brings it into the range of an `i32`.
fn clamp(magnitude: u64, negative: bool) -> (value: i32)
    ensures
        value == saturate(
            if negative {
                -(magnitude as int)
            } else {
                magnitude as int
            },
        ),
{
    if negative {
        if magnitude >= 0x8000_0000 {
            i32::MIN
        } else {
            -(magnitude as i32)
        }
    } else {
        if magnitude > 0x7fff_ffff {
            i32::MAX
        } else {
            magnitude as i32
        }
    }
}

} // verus!
