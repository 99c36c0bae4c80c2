//! Double-precision numbers as the renderer's decisions see them.
//!
//! The renderer never adds or multiplies in verified code. What it does with a
//! number is to classify it, to order it against another one, and to turn a
//! colour channel into a byte. All three are exact operations on the IEEE 754
//! bit pattern, so a number is held here as that pattern.

use vstd::arithmetic::div_mod::{lemma_fundamental_div_mod, lemma_mod_pos_bound};
use vstd::arithmetic::power2::{
    lemma2_to64_rest, lemma_pow2_adds, lemma_pow2_pos, lemma_pow2_strictly_increases, pow2,
};
use vstd::prelude::*;

verus! {

/// The bit that carries the sign.
pub const SIGN_BIT: u64 = 0x8000_0000_0000_0000;

/// The pattern of positive infinity. A larger magnitude is not a number.
pub const INFINITY_BITS: u64 = 0x7ff0_0000_0000_0000;

/// Two to the power 52: the weight of the implicit leading bit of a normal number.
pub const HIDDEN_BIT: u64 = 0x0010_0000_0000_0000;

/// The pattern of the number one.
pub const ONE_BITS: u64 = 0x3ff0_0000_0000_0000;

/// A double-precision number, held as its IEEE 754 binary64 bit pattern.
///
/// The model of a pattern is its `rank`: a signed integer that orders the
/// patterns exactly as the numbers they encode are ordered, with both zeros at
/// rank 0. Patterns that encode no number (`nan`) have no place in that order:
/// every comparison with one of them is false.
#[derive(Clone, Copy, Debug)]
pub struct Scalar(pub u64);

impl Scalar {
    /// The sign bit is set. This holds of negative zero as well.
    pub open spec fn sign(self) -> bool {
        self.0 >= SIGN_BIT
    }

    /// The pattern without its sign bit.
    pub open spec fn magnitude(self) -> int {
        if self.0 >= SIGN_BIT {
            self.0 - SIGN_BIT
        } else {
            self.0 as int
        }
    }

    /// The pattern encodes no number.
    pub open spec fn nan(self) -> bool {
        self.magnitude() > INFINITY_BITS
    }

    /// The pattern encodes a number that is not infinite.
    pub open spec fn finite(self) -> bool {
        self.magnitude() < INFINITY_BITS
    }

    /// The place of the pattern in the order of the numbers.
    pub open spec fn rank(self) -> int {
        if self.sign() {
            -self.magnitude()
        } else {
            self.magnitude()
        }
    }

    /// `self < other` as numbers.
    pub open spec fn below(self, other: Scalar) -> bool {
        !self.nan() && !other.nan() && self.rank() < other.rank()
    }

    /// `self <= other` as numbers.
    pub open spec fn at_most(self, other: Scalar) -> bool {
        !self.nan() && !other.nan() && self.rank() <= other.rank()
    }

    /// `self == 0` as a number: either zero.
    pub open spec fn zero(self) -> bool {
        self.magnitude() == 0
    }

    /// `self > 0` as a number.
    pub open spec fn positive(self) -> bool {
        !self.nan() && self.rank() > 0
    }

    /// `self >= 0` as a number.
    pub open spec fn non_negative(self) -> bool {
        !self.nan() && self.rank() >= 0
    }

    /// The integer `m` of the form `m * 2^e` of a finite number's absolute value.
    pub open spec fn significand(self) -> int {
        if self.magnitude() < HIDDEN_BIT {
            self.magnitude()
        } else {
            HIDDEN_BIT + self.magnitude() % (HIDDEN_BIT as int)
        }
    }

    /// The integer `e` of the form `m * 2^e` of a finite number's absolute value.
    pub open spec fn exponent(self) -> int {
        if self.magnitude() < HIDDEN_BIT {
            -1074
        } else {
            self.magnitude() / (HIDDEN_BIT as int) - 1075
        }
    }

    /// The absolute value of a finite number in units of `2^-1074`, the
    /// smallest step between two numbers: a whole number.
    pub open spec fn units(self) -> int {
        self.significand() * pow2((self.exponent() + 1074) as nat)
    }

    /// A finite number in units of `2^-1074`.
    pub open spec fn signed_units(self) -> int {
        if self.sign() {
            -self.units()
        } else {
            self.units()
        }
    }

    /// The integer part of the absolute value of a finite number times `2^k`.
    pub open spec fn floor_scaled(self, k: int) -> int {
        let e = self.exponent() + k;
        if e >= 0 {
            self.significand() * pow2(e as nat)
        } else {
            self.significand() / (pow2((-e) as nat) as int)
        }
    }

    /// The byte of a colour channel: the integer part of 256 times the number,
    /// held to the range 0 to 255; 0 where the number is not finite.
    pub open spec fn channel(self) -> int {
        if !self.finite() || self.sign() {
            0
        } else if self.floor_scaled(8) >= 255 {
            255
        } else {
            self.floor_scaled(8)
        }
    }

    /// The pattern without its sign bit.
    fn abs_bits(self) -> (m: u64)
        ensures
            m == self.magnitude(),
    {
        if self.0 >= SIGN_BIT {
            self.0 - SIGN_BIT
        } else {
            self.0
        }
    }

    /// Whether the pattern encodes no number.
    pub fn is_nan(self) -> (r: bool)
        ensures
            r == self.nan(),
    {
        self.abs_bits() > INFINITY_BITS
    }

    /// Whether the pattern encodes a number that is not infinite.
    pub fn is_finite(self) -> (r: bool)
        ensures
            r == self.finite(),
    {
        self.abs_bits() < INFINITY_BITS
    }

    /// Whether the number is zero, of either sign.
    pub fn is_zero(self) -> (r: bool)
        ensures
            r == self.zero(),
    {
        self.abs_bits() == 0
    }

    /// Whether the number is greater than zero.
    pub fn is_positive(self) -> (r: bool)
        ensures
            r == self.positive(),
    {
        let m: u64 = self.abs_bits();
        self.0 < SIGN_BIT && 0 < m && m <= INFINITY_BITS
    }

    /// Whether the number is zero or greater.
    pub fn is_non_negative(self) -> (r: bool)
        ensures
            r == self.non_negative(),
    {
        let m: u64 = self.abs_bits();
        m == 0 || (self.0 < SIGN_BIT && m <= INFINITY_BITS)
    }

    /// Whether `self < other` as numbers.
    pub fn lt(self, other: Scalar) -> (r: bool)
        ensures
            r == self.below(other),
    {
        let a: u64 = self.abs_bits();
        let b: u64 = other.abs_bits();
        if a > INFINITY_BITS || b > INFINITY_BITS {
            false
        } else if self.0 >= SIGN_BIT {
            if other.0 >= SIGN_BIT {
                b < a
            } else {
                a > 0 || b > 0
            }
        } else {
            other.0 < SIGN_BIT && a < b
        }
    }

    /// Whether `self <= other` as numbers.
    pub fn le(self, other: Scalar) -> (r: bool)
        ensures
            r == self.at_most(other),
    {
        let a: u64 = self.abs_bits();
        let b: u64 = other.abs_bits();
        if a > INFINITY_BITS || b > INFINITY_BITS {
            false
        } else if self.0 >= SIGN_BIT {
            other.0 < SIGN_BIT || b <= a
        } else if other.0 >= SIGN_BIT {
            a == 0 && b == 0
        } else {
            a <= b
        }
    }

    /// The number itself where it is greater than zero, and positive zero
    /// for anything else: the larger of the number and zero.
    pub open spec fn or_zero(self) -> Scalar {
        if self.positive() {
            self
        } else {
            Scalar(0)
        }
    }

    /// The larger of the number and zero. What is not a number becomes zero.
    pub fn max_zero(self) -> (r: Scalar)
        ensures
            r == self.or_zero(),
            r.non_negative(),
    {
        if self.is_positive() {
            self
        } else {
            Scalar(0)
        }
    }

    /// The byte that stands for a colour channel of this intensity: the
    /// integer part of 256 times the number, held to 0..=255, and 0 where the
    /// number is infinite or not a number.
    pub fn to_channel(self) -> (byte: u8)
        ensures
            byte == self.channel(),
    {
        let m: u64 = self.abs_bits();
        if m >= INFINITY_BITS || self.0 >= SIGN_BIT {
            return 0;
        }
        let biased: u64 = m / HIDDEN_BIT;
        proof {
            lemma2_to64_rest();
        }
        if biased >= 1023 {
            proof {
                let sig = self.significand();
                let e = self.exponent() + 8;
                if e >= 0 {
                    lemma_pow2_pos(e as nat);
                    assert(sig * pow2(e as nat) >= sig) by (nonlinear_arith)
                        requires
                            sig >= 0,
                            pow2(e as nat) >= 1,
                    ;
                } else {
                    let d = (-e) as nat;
                    lemma_pow2_pos(d);
                    if d < 44 {
                        lemma_pow2_strictly_increases(d, 44);
                    }
                    let p = pow2(d) as int;
                    assert(sig / p >= 256) by (nonlinear_arith)
                        requires
                            sig >= 256 * 0x1000_0000_0000,
                            0 < p <= 0x1000_0000_0000,
                    ;
                }
            }
            return 255;
        }
        if biased < 1015 {
            proof {
                let sig = self.significand();
                let d = (-(self.exponent() + 8)) as nat;
                if d > 53 {
                    lemma_pow2_strictly_increases(53, d);
                }
                let p = pow2(d) as int;
                assert(sig / p == 0) by (nonlinear_arith)
                    requires
                        0 <= sig < p,
                ;
            }
            return 0;
        }
        let sig: u64 = HIDDEN_BIT + m % HIDDEN_BIT;
        let divisor: u64 = if biased == 1015 {
            0x0010_0000_0000_0000
        } else if biased == 1016 {
            0x0008_0000_0000_0000
        } else if biased == 1017 {
            0x0004_0000_0000_0000
        } else if biased == 1018 {
            0x0002_0000_0000_0000
        } else if biased == 1019 {
            0x0001_0000_0000_0000
        } else if biased == 1020 {
            0x8000_0000_0000
        } else if biased == 1021 {
            0x4000_0000_0000
        } else {
            0x2000_0000_0000
        };
        assert(divisor == pow2((1067 - biased) as nat));
        let scaled: u64 = sig / divisor;
        assert(scaled == self.floor_scaled(8));
        assert(scaled <= 255);
        scaled as u8
    }
}

/// Of two finite numbers the one with the larger magnitude pattern has the
/// larger absolute value.
proof fn lemma_units_increase(a: Scalar, b: Scalar)
    requires
        a.finite(),
        b.finite(),
        a.magnitude() < b.magnitude(),
    ensures
        0 <= a.units() < b.units(),
{
    let h = HIDDEN_BIT as int;
    let ka = (a.exponent() + 1074) as nat;
    let kb = (b.exponent() + 1074) as nat;
    let sa = a.significand();
    let sb = b.significand();
    lemma_pow2_pos(ka);
    lemma_pow2_pos(kb);
    lemma_mod_pos_bound(a.magnitude(), h);
    lemma_mod_pos_bound(b.magnitude(), h);
    lemma_fundamental_div_mod(a.magnitude(), h);
    lemma_fundamental_div_mod(b.magnitude(), h);
    assert(0 <= sa < 2 * h);
    assert(sa * pow2(ka) >= 0) by (nonlinear_arith)
        requires
            sa >= 0,
            pow2(ka) > 0,
    ;
    if ka == kb {
        assert(sa < sb);
        assert(sa * pow2(ka) < sb * pow2(ka)) by (nonlinear_arith)
            requires
                sa < sb,
                pow2(ka) > 0,
        ;
    } else {
        assert(ka < kb && sb >= h);
        if a.magnitude() < h {
            assert(ka == 0);
            assert(pow2(0) == 1) by {
                lemma2_to64_rest();
                vstd::arithmetic::power2::lemma2_to64();
            }
            assert(sb * pow2(kb) >= sb) by (nonlinear_arith)
                requires
                    sb >= 0,
                    pow2(kb) >= 1,
            ;
        } else {
            lemma_pow2_adds(1, ka);
            assert(pow2(1) == 2) by {
                vstd::arithmetic::power2::lemma2_to64();
            }
            if ka + 1 < kb {
                lemma_pow2_strictly_increases(ka + 1, kb);
            }
            let pa = pow2(ka) as int;
            let pb = pow2(kb) as int;
            assert(sa * pa < sb * pb) by (nonlinear_arith)
                requires
                    0 <= sa < 2 * h,
                    sb >= h,
                    h > 0,
                    pa > 0,
                    2 * pa <= pb,
            ;
        }
    }
}

/// The order of the ranks is the order of the numbers: of two finite
/// numbers the one of lower rank is the smaller, and two have the same rank
/// exactly when they are the same number.
pub proof fn lemma_rank_orders_numbers(a: Scalar, b: Scalar)
    requires
        a.finite(),
        b.finite(),
    ensures
        a.rank() < b.rank() <==> a.signed_units() < b.signed_units(),
        a.rank() == b.rank() <==> a.signed_units() == b.signed_units(),
{
    let zero = Scalar(0);
    assert(zero.units() == 0) by {
        assert(zero.significand() * pow2((zero.exponent() + 1074) as nat) == 0)
            by (nonlinear_arith)
            requires
                zero.significand() == 0,
        ;
    }
    if a.magnitude() > 0 {
        lemma_units_increase(zero, a);
    } else {
        assert(a.units() == 0) by {
            assert(a.significand() * pow2((a.exponent() + 1074) as nat) == 0) by (nonlinear_arith)
                requires
                    a.significand() == 0,
            ;
        }
    }
    if b.magnitude() > 0 {
        lemma_units_increase(zero, b);
    } else {
        assert(b.units() == 0) by {
            assert(b.significand() * pow2((b.exponent() + 1074) as nat) == 0) by (nonlinear_arith)
                requires
                    b.significand() == 0,
            ;
        }
    }
    if a.magnitude() < b.magnitude() {
        lemma_units_increase(a, b);
    } else if b.magnitude() < a.magnitude() {
        lemma_units_increase(b, a);
    }
}

/// The byte of a channel is the integer part of 256 times the number: in
/// units of `2^-1074`, `floor_scaled(8)` times `2^1066` is at most the number,
/// and one more would exceed it.
pub proof fn lemma_channel_is_floor(c: Scalar)
    requires
        c.finite(),
    ensures
        0 <= c.channel() <= 255,
        c.floor_scaled(8) * pow2(1066) <= c.units() < (c.floor_scaled(8) + 1) * pow2(1066),
        !c.sign() && c.floor_scaled(8) < 255 ==> c.channel() == c.floor_scaled(8),
        !c.sign() && c.floor_scaled(8) >= 255 ==> c.channel() == 255,
        c.sign() ==> c.channel() == 0,
{
    let sig = c.significand();
    let k = (c.exponent() + 1074) as nat;
    let e = c.exponent() + 8;
    let unit = pow2(1066) as int;
    lemma_pow2_pos(1066);
    lemma_pow2_pos(k);
    lemma_mod_pos_bound(c.magnitude(), HIDDEN_BIT as int);
    assert(sig >= 0);
    if e >= 0 {
        lemma_pow2_adds(e as nat, 1066);
        lemma_pow2_pos(e as nat);
        let p = pow2(e as nat) as int;
        assert(sig * p * unit == sig * (p * unit)) by (nonlinear_arith);
        assert(sig * p >= 0 && (sig * p + 1) * unit > sig * p * unit) by (nonlinear_arith)
            requires
                sig >= 0,
                p > 0,
                unit > 0,
        ;
    } else {
        let d = (-e) as nat;
        lemma_pow2_adds(d, k);
        lemma_pow2_pos(d);
        let p = pow2(d) as int;
        let low = pow2(k) as int;
        let q = sig / p;
        lemma_fundamental_div_mod(sig, p);
        lemma_mod_pos_bound(sig, p);
        assert(q * unit <= sig * low < (q + 1) * unit) by (nonlinear_arith)
            requires
                sig == p * q + sig % p,
                0 <= sig % p < p,
                unit == p * low,
                low > 0,
        ;
        assert(q >= 0) by (nonlinear_arith)
            requires
                sig == p * q + sig % p,
                0 <= sig % p < p,
                sig >= 0,
                p > 0,
        ;
    }
}

} // verus!
