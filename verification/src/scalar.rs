//! Single-precision numbers carried by their bit patterns.
//!
//! Coordinates, zoom levels and scroll amounts are IEEE 754 binary32 numbers.
//! This module adds and multiplies none of them: it stores them, orders them, cuts
//! them down to whole numbers and quarters them, all of which is integer work on
//! the 32 bits and loses nothing. What a bit pattern stands for is given by
//! [`Scalar::scaled`], the value times 2^149, which is a whole number for every
//! finite pattern.
use vstd::prelude::*;
use vstd::arithmetic::power2::*;
use vstd::arithmetic::mul::*;
use vstd::arithmetic::div_mod::*;
use vstd::bits::*;

verus! {

/// Patterns at or above this one have the sign bit set.
pub const SIGN_BIT: u32 = 0x8000_0000;

/// Two to the 23rd: the span of the fraction field, and the hidden leading bit of
/// a normal number's significand.
pub const FRACTION_SPAN: u32 = 0x80_0000;

/// The pattern of positive infinity. Magnitude bits above it are not numbers.
pub const INFINITY_BITS: u32 = 0x7F80_0000;

/// The pattern of the number one.
pub const ONE_BITS: u32 = 0x3F80_0000;

/// The pattern of the number minus one.
pub const MINUS_ONE_BITS: u32 = 0xBF80_0000;

/// The pattern of the NaN that arithmetic gives where it has no number to give.
pub const NAN_BITS: u32 = 0x7FC0_0000;

/// The fraction bit that is set in a NaN that arithmetic hands on.
pub const QUIET_BIT: u32 = 0x40_0000;

/// A quarter of `n`, rounded to the nearest whole number, and to the even one of
/// the two where it lies halfway.
pub open spec fn quarter_rounded(n: int) -> int {
    let whole = n / 4;
    let rest = n % 4;
    if rest < 2 || (rest == 2 && whole % 2 == 0) {
        whole
    } else {
        whole + 1
    }
}

/// A binary32 number, held as its 32 bits: one sign bit, eight exponent bits and
/// twenty-three fraction bits, from the top down.
///
/// `==` on this type compares bit patterns, so it tells the two zeros apart and
/// finds a NaN equal to itself. Use [`Scalar::lt`] and its siblings to compare the
/// numbers that the patterns stand for.
#[derive(Clone, Copy, Debug, PartialEq, Eq, Structural)]
pub struct Scalar {
    pub bits: u32,
}

impl Scalar {
    /// Whether the sign bit is set.
    pub open spec fn sign(self) -> bool {
        self.bits >= SIGN_BIT
    }

    /// The pattern with the sign bit cleared.
    pub open spec fn magnitude_bits(self) -> int {
        (self.bits % SIGN_BIT) as int
    }

    /// The biased exponent field, from 0 to 255.
    pub open spec fn exponent(self) -> int {
        ((self.bits / FRACTION_SPAN) % 256) as int
    }

    /// The fraction field, below 2^23.
    pub open spec fn fraction(self) -> int {
        (self.bits % FRACTION_SPAN) as int
    }

    /// Whether the pattern is not a number.
    pub open spec fn is_nan_spec(self) -> bool {
        self.exponent() == 255 && self.fraction() != 0
    }

    /// The absolute value times 2^149. Subnormal numbers have exponent field 0 and
    /// no hidden bit. An infinity counts as 2^128, above every finite number. The
    /// result means nothing for a NaN.
    pub open spec fn magnitude(self) -> int {
        if self.exponent() == 0 {
            self.fraction()
        } else {
            (FRACTION_SPAN + self.fraction()) * pow2((self.exponent() - 1) as nat)
        }
    }

    /// The value times 2^149, with its sign. Both zeros give 0.
    pub open spec fn scaled(self) -> int {
        if self.sign() {
            -self.magnitude()
        } else {
            self.magnitude()
        }
    }

    /// The magnitude bits, negated where the sign bit is set: a whole number that
    /// orders patterns as [`Scalar::scaled`] orders what they stand for.
    pub open spec fn order_key(self) -> int {
        if self.sign() {
            -self.magnitude_bits()
        } else {
            self.magnitude_bits()
        }
    }

    /// `self < other` as IEEE 754 orders numbers: false when either is a NaN.
    pub open spec fn lt_spec(self, other: Scalar) -> bool {
        !self.is_nan_spec() && !other.is_nan_spec() && self.scaled() < other.scaled()
    }

    /// `self <= other` as IEEE 754 orders numbers: false when either is a NaN.
    pub open spec fn le_spec(self, other: Scalar) -> bool {
        !self.is_nan_spec() && !other.is_nan_spec() && self.scaled() <= other.scaled()
    }

    /// `self > other`, that is `other < self`.
    pub open spec fn gt_spec(self, other: Scalar) -> bool {
        other.lt_spec(self)
    }

    /// `self >= other`, that is `other <= self`.
    pub open spec fn ge_spec(self, other: Scalar) -> bool {
        other.le_spec(self)
    }

    /// The absolute value cut down to a whole number: its digits after the point
    /// are dropped.
    pub open spec fn whole_part(self) -> int {
        self.magnitude() / (pow2(149) as int)
    }

    /// The nearest `u32` towards zero: what is below zero gives 0, what is above
    /// the largest `u32` gives that, a NaN gives 0, and every other number gives
    /// its whole part.
    pub open spec fn to_u32_spec(self) -> u32 {
        if self.is_nan_spec() || self.sign() {
            0
        } else if self.whole_part() > u32::MAX {
            u32::MAX
        } else {
            self.whole_part() as u32
        }
    }

    /// The nearest `i32` towards zero: what is outside the range of `i32` gives
    /// the end of the range on its side, a NaN gives 0, and every other number
    /// gives its whole part with its sign.
    pub open spec fn to_i32_spec(self) -> i32 {
        if self.is_nan_spec() {
            0
        } else if self.sign() {
            if self.whole_part() > -(i32::MIN as int) {
                i32::MIN
            } else {
                (-self.whole_part()) as i32
            }
        } else {
            if self.whole_part() > i32::MAX {
                i32::MAX
            } else {
                self.whole_part() as i32
            }
        }
    }

    /// One with the sign of the number: one where the sign bit is clear (for
    /// positive zero too), minus one where it is set, and a NaN for a NaN.
    pub open spec fn signum_spec(self) -> Scalar {
        if self.is_nan_spec() {
            Scalar { bits: NAN_BITS }
        } else if self.sign() {
            Scalar { bits: MINUS_ONE_BITS }
        } else {
            Scalar { bits: ONE_BITS }
        }
    }

    /// The number without its sign.
    pub open spec fn abs_spec(self) -> Scalar {
        Scalar { bits: self.bits % SIGN_BIT }
    }

    /// A quarter of the number, as dividing by four or multiplying by a quarter
    /// gives it. Zeros and infinities stay as they are. A number with an exponent
    /// field of 3 or more has it lowered by 2. A smaller number has a quarter of
    /// its magnitude, rounded to the units that the format counts in. A NaN stays
    /// a NaN, with the quiet bit set.
    pub open spec fn quarter_spec(self) -> Scalar {
        if self.is_nan_spec() {
            if self.fraction() < QUIET_BIT {
                Scalar { bits: (self.bits + QUIET_BIT) as u32 }
            } else {
                self
            }
        } else if self.exponent() == 255 || self.magnitude_bits() == 0 {
            self
        } else if self.exponent() >= 3 {
            Scalar { bits: (self.bits - 2 * FRACTION_SPAN) as u32 }
        } else {
            Scalar {
                bits: (self.bits - self.magnitude_bits() + quarter_rounded(self.magnitude())) as u32,
            }
        }
    }

    /// Positive zero.
    pub open spec fn zero() -> Scalar {
        Scalar { bits: 0 }
    }

    /// The number one.
    pub open spec fn one() -> Scalar {
        Scalar { bits: ONE_BITS }
    }

    /// Wraps a bit pattern.
    pub fn from_bits(bits: u32) -> (s: Scalar)
        ensures
            s.bits == bits,
    {
        Scalar { bits }
    }

    /// The bit pattern.
    pub fn to_bits(self) -> (bits: u32)
        ensures
            bits == self.bits,
    {
        self.bits
    }

    /// The magnitude bits, negated where the sign bit is set.
    fn key(self) -> (k: i64)
        ensures
            k == self.order_key(),
    {
        let low: u32 = self.bits % SIGN_BIT;
        if self.bits >= SIGN_BIT {
            -(low as i64)
        } else {
            low as i64
        }
    }

    /// `self < other`; false when either is a NaN.
    #[verifier::when_used_as_spec(lt_spec)]
    pub fn lt(self, other: Scalar) -> (r: bool)
        ensures
            r == self.lt_spec(other),
    {
        proof {
            lemma_order_by_bits(self, other);
        }
        !self.is_nan() && !other.is_nan() && self.key() < other.key()
    }

    /// `self <= other`; false when either is a NaN.
    #[verifier::when_used_as_spec(le_spec)]
    pub fn le(self, other: Scalar) -> (r: bool)
        ensures
            r == self.le_spec(other),
    {
        proof {
            lemma_order_by_bits(self, other);
        }
        !self.is_nan() && !other.is_nan() && self.key() <= other.key()
    }

    /// `self > other`; false when either is a NaN.
    #[verifier::when_used_as_spec(gt_spec)]
    pub fn gt(self, other: Scalar) -> (r: bool)
        ensures
            r == self.gt_spec(other),
    {
        other.lt(self)
    }

    /// `self >= other`; false when either is a NaN.
    #[verifier::when_used_as_spec(ge_spec)]
    pub fn ge(self, other: Scalar) -> (r: bool)
        ensures
            r == self.ge_spec(other),
    {
        other.le(self)
    }

    /// The whole part of the magnitude, capped at 2^32.
    fn truncate(self) -> (w: u64)
        ensures
            w == if self.whole_part() > u32::MAX {
                0x1_0000_0000
            } else {
                self.whole_part()
            },
    {
        let e: u32 = (self.bits / FRACTION_SPAN) % 256;
        let f: u32 = self.bits % FRACTION_SPAN;
        let sig: u64 = (FRACTION_SPAN + f) as u64;
        proof {
            lemma_whole_part(self);
        }
        if e < 127 {
            0
        } else if e <= 150 {
            let shift: u64 = (150 - e) as u64;
            proof {
                lemma_u64_shr_is_div(sig, shift);
                lemma_pow2_pos(shift as nat);
                lemma_div_nonincreasing(sig as int, pow2(shift as nat) as int);
            }
            sig >> shift
        } else if e <= 158 {
            let shift: u64 = (e - 150) as u64;
            proof {
                lemma_u64_shl_is_mul(sig, shift);
            }
            sig << shift
        } else {
            0x1_0000_0000
        }
    }

    /// The number as a `u32`, cut towards zero and kept within the type's range
    /// as a cast does.
    #[verifier::when_used_as_spec(to_u32_spec)]
    pub fn to_u32(self) -> (n: u32)
        ensures
            n == self.to_u32_spec(),
    {
        if self.is_nan() || self.bits >= SIGN_BIT {
            return 0;
        }
        let w: u64 = self.truncate();
        if w > 0xFFFF_FFFF {
            u32::MAX
        } else {
            w as u32
        }
    }

    /// The number as an `i32`, cut towards zero and kept within the type's range
    /// as a cast does.
    #[verifier::when_used_as_spec(to_i32_spec)]
    pub fn to_i32(self) -> (n: i32)
        ensures
            n == self.to_i32_spec(),
    {
        if self.is_nan() {
            return 0;
        }
        let w: u64 = self.truncate();
        if self.bits >= SIGN_BIT {
            if w > 0x8000_0000 {
                i32::MIN
            } else {
                (-(w as i64)) as i32
            }
        } else {
            if w > 0x7FFF_FFFF {
                i32::MAX
            } else {
                w as i32
            }
        }
    }

    /// One with the sign of the number; a NaN for a NaN.
    #[verifier::when_used_as_spec(signum_spec)]
    pub fn signum(self) -> (unit: Scalar)
        ensures
            unit == self.signum_spec(),
    {
        if self.is_nan() {
            Scalar { bits: NAN_BITS }
        } else if self.bits >= SIGN_BIT {
            Scalar { bits: MINUS_ONE_BITS }
        } else {
            Scalar { bits: ONE_BITS }
        }
    }

    /// The number without its sign.
    #[verifier::when_used_as_spec(abs_spec)]
    pub fn abs(self) -> (size: Scalar)
        ensures
            size == self.abs_spec(),
    {
        Scalar { bits: self.bits % SIGN_BIT }
    }

    /// A quarter of the number.
    #[verifier::when_used_as_spec(quarter_spec)]
    pub fn quarter(self) -> (part: Scalar)
        ensures
            part == self.quarter_spec(),
    {
        let low: u32 = self.bits % SIGN_BIT;
        let e: u32 = low / FRACTION_SPAN;
        let f: u32 = low % FRACTION_SPAN;
        proof {
            lemma_fields(self);
            lemma_small_magnitude(self);
        }
        if low > INFINITY_BITS {
            if f < QUIET_BIT {
                Scalar { bits: self.bits + QUIET_BIT }
            } else {
                self
            }
        } else if low == INFINITY_BITS || low == 0 {
            self
        } else if e >= 3 {
            Scalar { bits: self.bits - 2 * FRACTION_SPAN }
        } else {
            let m: u32 = if e == 0 {
                f
            } else if e == 1 {
                FRACTION_SPAN + f
            } else {
                2 * (FRACTION_SPAN + f)
            };
            let whole: u32 = m / 4;
            let rest: u32 = m % 4;
            let rounded: u32 = if rest < 2 || (rest == 2 && whole % 2 == 0) {
                whole
            } else {
                whole + 1
            };
            Scalar { bits: self.bits - low + rounded }
        }
    }

    /// Whether the pattern is not a number.
    #[verifier::when_used_as_spec(is_nan_spec)]
    pub fn is_nan(self) -> (nan: bool)
        ensures
            nan == self.is_nan_spec(),
    {
        self.bits % SIGN_BIT > INFINITY_BITS
    }
}

/// The magnitude bits are the exponent field times 2^23 plus the fraction field.
pub proof fn lemma_fields(s: Scalar)
    ensures
        0 <= s.exponent() <= 255,
        0 <= s.fraction() < FRACTION_SPAN,
        s.magnitude_bits() == s.exponent() * FRACTION_SPAN + s.fraction(),
        s.is_nan_spec() <==> s.magnitude_bits() > INFINITY_BITS,
        s.bits == s.magnitude_bits() + (if s.sign() { SIGN_BIT as int } else { 0 }),
{
}

/// What a pattern stands for is never negative in magnitude, and is zero only for
/// the two zeros.
pub proof fn lemma_magnitude_sign(s: Scalar)
    ensures
        s.magnitude() >= 0,
        s.magnitude() == 0 <==> s.magnitude_bits() == 0,
        s.whole_part() >= 0,
{
    lemma_fields(s);
    lemma_pow2_pos(149);
    if s.exponent() != 0 {
        let p = pow2((s.exponent() - 1) as nat) as int;
        lemma_pow2_pos((s.exponent() - 1) as nat);
        lemma_mul_strictly_positive(FRACTION_SPAN + s.fraction(), p);
    }
    lemma_div_pos_is_pos(s.magnitude(), pow2(149) as int);
}

/// A larger pattern (sign bit aside) stands for a larger magnitude.
pub proof fn lemma_magnitude_increases(a: Scalar, b: Scalar)
    requires
        a.magnitude_bits() < b.magnitude_bits(),
    ensures
        a.magnitude() < b.magnitude(),
{
    lemma_fields(a);
    lemma_fields(b);
    let ea = a.exponent();
    let eb = b.exponent();
    assert(ea <= eb);
    if ea == eb {
        assert(a.fraction() < b.fraction());
        if ea != 0 {
            let p = pow2((ea - 1) as nat) as int;
            lemma_pow2_pos((ea - 1) as nat);
            lemma_mul_strict_inequality(
                FRACTION_SPAN + a.fraction(),
                FRACTION_SPAN + b.fraction(),
                p,
            );
        }
    } else {
        let pb = pow2((eb - 1) as nat) as int;
        lemma_pow2_pos((eb - 1) as nat);
        // b's magnitude is at least 2^23 * 2^(eb - 1)
        lemma_mul_inequality(FRACTION_SPAN as int, FRACTION_SPAN + b.fraction(), pb);
        if ea == 0 {
            lemma_mul_inequality(1, pb, FRACTION_SPAN as int);
            lemma_mul_is_commutative(pb, FRACTION_SPAN as int);
        } else {
            let pa = pow2((ea - 1) as nat) as int;
            lemma_pow2_pos((ea - 1) as nat);
            // a's magnitude is below 2^24 * 2^(ea - 1) = 2^23 * 2^ea
            lemma_mul_strict_inequality(
                FRACTION_SPAN + a.fraction(),
                2 * FRACTION_SPAN,
                pa,
            );
            lemma_pow2_unfold(ea as nat);
            assert(pow2(ea as nat) == 2 * pa);
            lemma_mul_is_associative(FRACTION_SPAN as int, 2, pa);
            if ea < eb - 1 {
                lemma_pow2_strictly_increases(ea as nat, (eb - 1) as nat);
            }
            assert(pow2(ea as nat) <= pb);
            lemma_mul_inequality(pow2(ea as nat) as int, pb, FRACTION_SPAN as int);
            lemma_mul_is_commutative(pb, FRACTION_SPAN as int);
            lemma_mul_is_commutative(pow2(ea as nat) as int, FRACTION_SPAN as int);
        }
    }
}

/// The order of two numbers can be read off their patterns: compare the magnitude
/// bits, negated where the sign bit is set.
pub proof fn lemma_order_by_bits(a: Scalar, b: Scalar)
    ensures
        a.scaled() < b.scaled() <==> a.order_key() < b.order_key(),
        a.scaled() == b.scaled() <==> a.order_key() == b.order_key(),
{
    lemma_magnitude_sign(a);
    lemma_magnitude_sign(b);
    if a.magnitude_bits() < b.magnitude_bits() {
        lemma_magnitude_increases(a, b);
    }
    if b.magnitude_bits() < a.magnitude_bits() {
        lemma_magnitude_increases(b, a);
    }
}

/// The magnitudes of the smallest numbers, written out.
proof fn lemma_small_magnitude(s: Scalar)
    ensures
        s.exponent() == 0 ==> s.magnitude() == s.fraction(),
        s.exponent() == 1 ==> s.magnitude() == FRACTION_SPAN + s.fraction(),
        s.exponent() == 2 ==> s.magnitude() == 2 * (FRACTION_SPAN + s.fraction()),
{
    lemma2_to64();
    if s.exponent() == 1 {
        assert(pow2((s.exponent() - 1) as nat) == 1);
    } else if s.exponent() == 2 {
        assert(pow2((s.exponent() - 1) as nat) == 2);
    }
}

/// A quarter of a finite number has the number's sign, and for its magnitude a
/// quarter of the number's, rounded to the nearest whole unit and to the even one
/// of two that are as near.
pub proof fn lemma_quarter(s: Scalar)
    requires
        s.exponent() < 255,
    ensures
        !s.quarter_spec().is_nan_spec(),
        s.quarter_spec().exponent() < 255,
        s.quarter_spec().sign() == s.sign(),
        s.quarter_spec().magnitude() == quarter_rounded(s.magnitude()),
{
    lemma_fields(s);
    lemma2_to64();
    let q = s.quarter_spec();
    lemma_fields(q);
    let e = s.exponent();
    if s.magnitude_bits() == 0 {
    } else if e >= 3 {
        assert(q.exponent() == e - 2);
        assert(q.fraction() == s.fraction());
        lemma_pow2_adds(2, (e - 3) as nat);
        let sig = FRACTION_SPAN + s.fraction();
        let p = pow2((e - 3) as nat) as int;
        assert(s.magnitude() == sig * (4 * p));
        assert(q.magnitude() == sig * p);
        assert(sig * (4 * p) == 4 * (sig * p)) by (nonlinear_arith);
    } else {
        let m = s.magnitude();
        lemma_small_magnitude(s);
        assert(0 <= m < 4 * FRACTION_SPAN);
        let r = quarter_rounded(m);
        assert(0 <= r <= FRACTION_SPAN);
        assert(q.magnitude_bits() == r);
        lemma_small_magnitude(q);
    }
}

/// The whole part, by the size of the exponent field: nothing below the field of
/// one, the significand shifted down or up from there, and past 2^32 from 159 on.
pub proof fn lemma_whole_part(s: Scalar)
    ensures
        s.exponent() < 127 ==> s.whole_part() == 0,
        127 <= s.exponent() <= 150 ==> s.whole_part() == (FRACTION_SPAN + s.fraction()) / (pow2(
            (150 - s.exponent()) as nat,
        ) as int),
        150 < s.exponent() <= 158 ==> s.whole_part() == (FRACTION_SPAN + s.fraction()) * pow2(
            (s.exponent() - 150) as nat,
        ) && s.whole_part() <= u32::MAX,
        158 < s.exponent() ==> s.whole_part() > u32::MAX,
{
    lemma_fields(s);
    lemma_magnitude_sign(s);
    let e = s.exponent();
    let sig = FRACTION_SPAN + s.fraction();
    let unit = pow2(149) as int;
    lemma_pow2_pos(149);
    lemma2_to64();
    if e < 127 {
        let one = Scalar::one();
        lemma_fields(one);
        assert(one.exponent() == 127 && one.fraction() == 0);
        lemma_magnitude_increases(s, one);
        lemma_pow2_adds(23, 126);
        assert(one.magnitude() == unit);
        lemma_small_div_converse(s.magnitude(), unit);
        lemma_basic_div(s.magnitude(), unit);
    } else if e <= 150 {
        let a = pow2((e - 1) as nat) as int;
        let b = pow2((150 - e) as nat) as int;
        lemma_pow2_pos((e - 1) as nat);
        lemma_pow2_pos((150 - e) as nat);
        lemma_pow2_adds((e - 1) as nat, (150 - e) as nat);
        assert(unit == a * b);
        lemma_mul_is_commutative(sig, a);
        lemma_div_multiples_vanish(sig, a);
        lemma_mul_nonnegative(sig, a);
        lemma_div_denominator(sig * a, a, b);
    } else {
        let c = pow2((e - 150) as nat) as int;
        lemma_pow2_pos((e - 150) as nat);
        lemma_pow2_adds((e - 150) as nat, 149);
        assert(pow2((e - 1) as nat) == c * unit);
        lemma_mul_is_associative(sig, c, unit);
        lemma_mul_nonnegative(sig, c);
        lemma_div_by_multiple(sig * c, unit);
        assert(s.whole_part() == sig * c);
        if e <= 158 {
            if e < 158 {
                lemma_pow2_strictly_increases((e - 150) as nat, 8);
            }
            assert(c <= 256);
            lemma_mul_inequality(c, 256, sig);
            lemma_mul_is_commutative(c, sig);
        } else {
            if e > 159 {
                lemma_pow2_strictly_increases(9, (e - 150) as nat);
            }
            assert(c >= 512);
            lemma_mul_inequality(512, c, sig);
            lemma_mul_is_commutative(c, sig);
        }
    }
}

} // verus!

