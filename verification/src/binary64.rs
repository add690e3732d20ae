//! IEEE 754 double-precision numbers, held by their bit pattern.
//!
//! The store keeps a fractional number as the 64 bits of its binary64
//! encoding. Everything the store needs to know of such a number is read off
//! those bits with integer arithmetic: whether it is a whole number, which
//! 64-bit integer it saturates to, and how it is written with three decimals.

use vstd::prelude::*;
use vstd::arithmetic::power2::{
    lemma2_to64,
    lemma2_to64_rest,
    lemma_pow2_pos,
    lemma_pow2_strictly_increases,
    lemma_pow2_unfold,
    pow2,
};
use vstd::bits::{lemma_u64_pow2_no_overflow, lemma_u64_shl_is_mul, lemma_u64_shr_is_div};
use crate::decimal::{
    decimal,
    decimal_chars,
    digit_char,
    digits_number,
    double_decimal,
    lemma_decimal_denotes,
    lemma_decimal_unique,
    all_digits,
    push_decimal,
};
use crate::text::{push_char, push_chars};

verus! {

/// Two to the power of 52: one more than the largest stored fraction.
pub const FRACTION_SCALE: u64 = 0x10_0000_0000_0000;

/// The bit that holds the sign.
pub const SIGN_BIT: u64 = 0x8000_0000_0000_0000;

/// The biased exponent that marks infinities and NaNs.
pub const EXPONENT_SPECIAL: u64 = 2047;

/// The biased exponent from which on every number is a whole number times a
/// power of two that is at least one.
pub const EXPONENT_WHOLE: u64 = 1075;

/// A double-precision number, as its 64 bits: one sign bit, eleven bits of
/// biased exponent, 52 bits of fraction.
#[derive(Clone, Copy, Debug, PartialEq, Eq, Structural)]
pub struct Binary64 {
    pub bits: u64,
}

/// `n / d`, rounded to the nearest whole number, a tie going to the even one.
pub open spec fn round_half_even(n: nat, d: nat) -> nat {
    let q = n / d;
    let r = n % d;
    if 2 * r > d || (2 * r == d && q % 2 == 1) {
        q + 1
    } else {
        q
    }
}

/// The three digits of `n`, for `n` below a thousand.
pub open spec fn three_digits(n: nat) -> Seq<char> {
    seq![digit_char(n / 100), digit_char(n / 10 % 10), digit_char(n % 10)]
}

impl Binary64 {
    /// Whether the sign bit is set.
    pub open spec fn negative(self) -> bool {
        self.bits >= SIGN_BIT
    }

    /// The eleven exponent bits, as a number.
    pub open spec fn biased_exponent(self) -> nat {
        (self.bits / FRACTION_SCALE % 2048) as nat
    }

    /// The 52 fraction bits, as a number.
    pub open spec fn fraction(self) -> nat {
        (self.bits % FRACTION_SCALE) as nat
    }

    /// Not a number.
    pub open spec fn nan(self) -> bool {
        self.biased_exponent() == EXPONENT_SPECIAL && self.fraction() != 0
    }

    /// Plus or minus infinity.
    pub open spec fn infinite(self) -> bool {
        self.biased_exponent() == EXPONENT_SPECIAL && self.fraction() == 0
    }

    /// Neither infinite nor NaN.
    pub open spec fn finite(self) -> bool {
        self.biased_exponent() < EXPONENT_SPECIAL
    }

    /// The whole number `m` in `|x| = m * 2^e`, for a finite `x`.
    pub open spec fn significand(self) -> nat {
        if self.biased_exponent() == 0 {
            self.fraction()
        } else {
            self.fraction() + FRACTION_SCALE as nat
        }
    }

    /// The exponent `e` in `|x| = m * 2^e`, for a finite `x`.
    pub open spec fn exponent(self) -> int {
        if self.biased_exponent() == 0 {
            -1074
        } else {
            self.biased_exponent() - 1075
        }
    }

    /// Whether the number is finite and has no fractional part.
    pub open spec fn whole(self) -> bool {
        self.finite() && (self.exponent() >= 0 || self.significand() % pow2(
            (-self.exponent()) as nat,
        ) == 0)
    }

    /// The magnitude of a finite number, with its fractional part cut off.
    pub open spec fn truncated(self) -> nat {
        if self.exponent() >= 0 {
            self.significand() * pow2(self.exponent() as nat)
        } else {
            self.significand() / pow2((-self.exponent()) as nat)
        }
    }

    /// The number as a signed 64-bit integer: the fractional part cut off, a
    /// number out of range replaced by the nearest bound, NaN by zero.
    pub open spec fn saturated(self) -> i64 {
        if self.nan() {
            0
        } else if self.infinite() || self.truncated() >= SIGN_BIT {
            if self.negative() {
                i64::MIN
            } else {
                i64::MAX
            }
        } else if self.negative() {
            (-self.truncated()) as i64
        } else {
            self.truncated() as i64
        }
    }

    /// The magnitude of a finite number in thousandths, rounded to the
    /// nearest, a tie going to the even one.
    pub open spec fn thousandths(self) -> nat {
        if self.exponent() >= 0 {
            1000 * (self.significand() * pow2(self.exponent() as nat))
        } else {
            round_half_even(1000 * self.significand(), pow2((-self.exponent()) as nat))
        }
    }

    /// The number with exactly three decimals; `inf`, `-inf` or `NaN` where it
    /// is not finite. The sign bit shows as a leading `-`, also before zero.
    pub open spec fn fixed3(self) -> Seq<char> {
        if self.nan() {
            seq!['N', 'a', 'N']
        } else {
            let sign = if self.negative() {
                seq!['-']
            } else {
                Seq::<char>::empty()
            };
            if self.infinite() {
                sign + seq!['i', 'n', 'f']
            } else {
                sign + decimal(self.thousandths() / 1000) + seq!['.'] + three_digits(
                    self.thousandths() % 1000,
                )
            }
        }
    }

    /// The number with the given bits.
    pub fn from_bits(bits: u64) -> (x: Self)
        ensures
            x.bits == bits,
    {
        Binary64 { bits }
    }

    /// The bits of the number.
    pub fn to_bits(&self) -> (bits: u64)
        ensures
            bits == self.bits,
    {
        self.bits
    }

    fn exponent_bits(&self) -> (e: u64)
        ensures
            e == self.biased_exponent(),
            e <= EXPONENT_SPECIAL,
    {
        self.bits / FRACTION_SCALE % 2048
    }

    fn fraction_bits(&self) -> (f: u64)
        ensures
            f == self.fraction(),
            f < FRACTION_SCALE,
    {
        self.bits % FRACTION_SCALE
    }

    /// The significand of a finite number, and by how many bits it is shifted
    /// down (`Ok`) or up (`Err`) to give the magnitude.
    fn decode(&self) -> (r: (u64, Result<u64, u64>))
        requires
            self.finite(),
        ensures
            r.0 == self.significand(),
            r.0 < 2 * FRACTION_SCALE,
            match r.1 {
                Ok(down) => 1 <= down <= 1074 && self.exponent() == -down,
                Err(up) => up <= 971 && self.exponent() == up && r.0 >= FRACTION_SCALE,
            },
    {
        let biased: u64 = self.exponent_bits();
        let fraction: u64 = self.fraction_bits();
        if biased == 0 {
            (fraction, Ok(1074))
        } else if biased < EXPONENT_WHOLE {
            (fraction + FRACTION_SCALE, Ok(EXPONENT_WHOLE - biased))
        } else {
            (fraction + FRACTION_SCALE, Err(biased - EXPONENT_WHOLE))
        }
    }

    /// Whether the sign bit is set.
    pub fn is_sign_negative(&self) -> (r: bool)
        ensures
            r == self.negative(),
    {
        self.bits >= SIGN_BIT
    }

    /// Whether this is a NaN.
    pub fn is_nan(&self) -> (r: bool)
        ensures
            r == self.nan(),
    {
        self.exponent_bits() == EXPONENT_SPECIAL && self.fraction_bits() != 0
    }

    /// Whether this is plus or minus infinity.
    pub fn is_infinite(&self) -> (r: bool)
        ensures
            r == self.infinite(),
    {
        self.exponent_bits() == EXPONENT_SPECIAL && self.fraction_bits() == 0
    }

    /// Whether the number is finite and has no fractional part.
    pub fn is_whole(&self) -> (r: bool)
        ensures
            r == self.whole(),
    {
        if self.exponent_bits() == EXPONENT_SPECIAL {
            return false;
        }
        let (m, shift) = self.decode();
        match shift {
            Err(_) => true,
            Ok(down) => {
                if m == 0 {
                    proof {
                        lemma_pow2_pos(down as nat);
                        let d = pow2(down as nat);
                        assert(0nat % d == 0) by (nonlinear_arith)
                            requires
                                d > 0,
                        ;
                    }
                    true
                } else if down >= 53 {
                    proof {
                        lemma_below_pow2(m, down as nat);
                    }
                    false
                } else {
                    proof {
                        lemma_u64_pow2_no_overflow(down as nat);
                        lemma_u64_shl_is_mul(1, down);
                    }
                    let d: u64 = 1u64 << down;
                    assert(d == pow2(down as nat));
                    m % d == 0
                }
            },
        }
    }

    /// The magnitude of a finite number with its fractional part cut off, or
    /// `None` where that does not fit in 63 bits.
    fn truncate(&self) -> (r: Option<u64>)
        requires
            self.finite(),
        ensures
            match r {
                Some(t) => t == self.truncated() && t < SIGN_BIT,
                None => self.truncated() >= SIGN_BIT,
            },
    {
        let (m, shift) = self.decode();
        match shift {
            Err(up) => {
                if up >= 11 {
                    proof {
                        lemma_large_product(m as nat, up as nat);
                    }
                    None
                } else {
                    proof {
                        lemma_small_product(m as nat, up as nat);
                        lemma_u64_shl_is_mul(m, up);
                    }
                    Some(m << up)
                }
            },
            Ok(down) => {
                if down >= 53 {
                    proof {
                        lemma_below_pow2(m, down as nat);
                    }
                    Some(0)
                } else {
                    proof {
                        lemma_u64_shr_is_div(m, down);
                        lemma_pow2_pos(down as nat);
                        let d = pow2(down as nat);
                        assert(m as nat / d <= m) by (nonlinear_arith)
                            requires
                                d > 0,
                        ;
                    }
                    Some(m >> down)
                }
            },
        }
    }

    /// The number as a signed 64-bit integer: the fractional part cut off, a
    /// number out of range replaced by the nearest bound, NaN by zero.
    pub fn to_i64(&self) -> (r: i64)
        ensures
            r == self.saturated(),
    {
        if self.is_nan() {
            return 0;
        }
        let magnitude: Option<u64> = if self.is_infinite() {
            None
        } else {
            self.truncate()
        };
        match magnitude {
            None => if self.is_sign_negative() {
                i64::MIN
            } else {
                i64::MAX
            },
            Some(t) => if self.is_sign_negative() {
                -(t as i64)
            } else {
                t as i64
            },
        }
    }

    /// The magnitude of a finite number below one half of two to the power
    /// of 64, in thousandths.
    fn round_thousandths(m: u64, down: u64) -> (t: u64)
        requires
            m < 2 * FRACTION_SCALE,
            1 <= down <= 1074,
        ensures
            t == round_half_even(1000 * m as nat, pow2(down as nat)),
            t <= 1000 * m,
    {
        let n: u64 = 1000 * m;
        if down >= 64 {
            proof {
                lemma_far_below_pow2(n, down as nat);
            }
            0
        } else {
            proof {
                lemma_u64_pow2_no_overflow(down as nat);
                lemma_u64_shl_is_mul(1, down);
            }
            let d: u64 = 1u64 << down;
            let q: u64 = n / d;
            let r: u64 = n % d;
            proof {
                lemma_pow2_unfold(down as nat);
                lemma_pow2_pos((down - 1) as nat);
                assert(d == pow2(down as nat) && d >= 2);
                assert(n == q * d + r && q * 2 <= q * d) by (nonlinear_arith)
                    requires
                        q == n / d,
                        r == n % d,
                        d >= 2,
                ;
            }
            if r > d - r || (r == d - r && q % 2 == 1) {
                q + 1
            } else {
                q
            }
        }
    }

    /// Appends the number to `out` with exactly three decimals.
    pub fn push_fixed3(&self, out: &mut String)
        ensures
            final(out)@ == old(out)@ + self.fixed3(),
    {
        if self.is_nan() {
            push_char(out, 'N');
            push_char(out, 'a');
            push_char(out, 'N');
            assert(out@ == old(out)@ + seq!['N', 'a', 'N']);
            return ;
        }
        let ghost sign = if self.negative() {
            seq!['-']
        } else {
            Seq::<char>::empty()
        };
        if self.is_sign_negative() {
            push_char(out, '-');
        }
        assert(out@ == old(out)@ + sign);
        if self.is_infinite() {
            push_char(out, 'i');
            push_char(out, 'n');
            push_char(out, 'f');
            assert(out@ == old(out)@ + (sign + seq!['i', 'n', 'f']));
            return ;
        }
        let (m, shift) = self.decode();
        let ghost whole_part = self.thousandths() / 1000;
        let ghost rest = self.thousandths() % 1000;
        let thousandths_rest: u64;
        match shift {
            Err(up) => {
                let digits = Self::scaled_digits(m, up);
                push_chars(out, &digits);
                thousandths_rest = 0;
                proof {
                    let p = m as nat * pow2(up as nat);
                    assert(self.thousandths() == 1000 * p);
                    assert((1000 * p) / 1000 == p && (1000 * p) % 1000 == 0) by (nonlinear_arith);
                }
            },
            Ok(down) => {
                let t: u64 = Self::round_thousandths(m, down);
                push_decimal(out, t / 1000);
                thousandths_rest = t % 1000;
            },
        }
        assert(out@ == old(out)@ + sign + decimal(whole_part));
        assert(thousandths_rest == rest);
        push_char(out, '.');
        push_char(out, Self::digit(thousandths_rest / 100));
        push_char(out, Self::digit(thousandths_rest / 10 % 10));
        push_char(out, Self::digit(thousandths_rest % 10));
        assert(out@ == old(out)@ + (sign + decimal(whole_part) + seq!['.'] + three_digits(rest)));
    }

    fn digit(d: u64) -> (c: char)
        requires
            d < 10,
        ensures
            c == digit_char(d as nat),
    {
        let v = decimal_chars(d);
        v[0]
    }

    /// The decimal notation of `m * 2^up`, for a positive `m`.
    fn scaled_digits(m: u64, up: u64) -> (digits: Vec<char>)
        requires
            m > 0,
        ensures
            digits@ == decimal(m as nat * pow2(up as nat)),
    {
        let mut digits: Vec<char> = decimal_chars(m);
        let mut i: u64 = 0;
        proof {
            lemma_decimal_denotes(m as nat);
            lemma2_to64();
        }
        while i < up
            invariant
                i <= up,
                all_digits(digits@),
                digits@.len() > 0,
                digits@[0] != '0',
                digits_number(digits@) == m as nat * pow2(i as nat),
            decreases up - i,
        {
            digits = double_decimal(&digits);
            proof {
                lemma_pow2_unfold((i + 1) as nat);
                assert(2 * (m as nat * pow2(i as nat)) == m as nat * (2 * pow2(i as nat)))
                    by (nonlinear_arith);
            }
            i = i + 1;
        }
        proof {
            lemma_decimal_unique(digits@);
        }
        digits
    }
}

/// A number below two to the power of 53 is below any higher power of two,
/// so dividing by that power leaves nothing and the remainder is the number.
proof fn lemma_below_pow2(m: u64, k: nat)
    requires
        m < 2 * FRACTION_SCALE,
        k >= 53,
    ensures
        m as nat / pow2(k) == 0,
        m as nat % pow2(k) == m,
{
    lemma2_to64_rest();
    if k > 53 {
        lemma_pow2_strictly_increases(53, k);
    }
    let d = pow2(k);
    assert(m < d);
    assert(m as nat / d == 0 && m as nat % d == m) by (nonlinear_arith)
        requires
            m < d,
    ;
}

/// A number below two to the power of 63 rounds to nothing when divided by
/// two to the power of 64 or more.
proof fn lemma_far_below_pow2(n: u64, k: nat)
    requires
        n < SIGN_BIT,
        k >= 64,
    ensures
        round_half_even(n as nat, pow2(k)) == 0,
{
    lemma2_to64();
    if k > 64 {
        lemma_pow2_strictly_increases(64, k);
    }
    let d = pow2(k);
    assert(2 * n < d);
    assert(n as nat / d == 0 && n as nat % d == n) by (nonlinear_arith)
        requires
            n < d,
    ;
}

/// A significand of 53 bits, shifted up by eleven bits or more, needs more
/// than 63 bits.
proof fn lemma_large_product(m: nat, up: nat)
    requires
        m >= FRACTION_SCALE,
        up >= 11,
    ensures
        m * pow2(up) >= SIGN_BIT,
{
    lemma2_to64();
    if up > 11 {
        lemma_pow2_strictly_increases(11, up);
    }
    let p = pow2(up);
    assert(m * p >= 0x10_0000_0000_0000 * 0x800) by (nonlinear_arith)
        requires
            m >= 0x10_0000_0000_0000,
            p >= 0x800,
    ;
}

/// A significand of 53 bits, shifted up by ten bits or fewer, fits in 63 bits.
proof fn lemma_small_product(m: nat, up: nat)
    requires
        m < 2 * FRACTION_SCALE,
        up <= 10,
    ensures
        m * pow2(up) < SIGN_BIT,
{
    lemma2_to64();
    if up < 10 {
        lemma_pow2_strictly_increases(up, 10);
    }
    let p = pow2(up);
    assert(m * p < 0x20_0000_0000_0000 * 0x400) by (nonlinear_arith)
        requires
            m < 0x20_0000_0000_0000,
            p <= 0x400,
    ;
}

} // verus!
