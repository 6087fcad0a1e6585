//! Decimal numbers of limited precision.
//!
//! A decimal is a sign, a magnitude and a power of ten. The arithmetic is
//! `dashu`'s, with results rounded towards zero to the precision asked for;
//! what is stated of it here is that each operation is a function of its
//! arguments, and what the integer part of a decimal is. The operations are
//! only asked for numbers of moderate size, on which the exponents that
//! `dashu` computes with stay far from the limits of the machine.

use crate::bytes::{
    fits_in, le_bytes, le_value, lemma_le_value_of_bytes, lemma_nonzero_byte,
    lemma_pow256_monotonic, lemma_pow256_values, lemma_zero_bytes, pow256, push_le,
};
use dashu::base::Sign;
use dashu::float::round::mode::Zero;
use dashu::float::{Context, FBig, Repr};
use dashu::integer::{IBig, UBig};
use vstd::prelude::*;

verus! {

/// The number `(-1)^negative * magnitude * 10^exponent`.
pub struct DecimalValue {
    pub negative: bool,
    pub magnitude: nat,
    pub exponent: int,
}

/// A decimal number: the magnitude is held by its little-endian bytes.
#[derive(Clone, Debug, PartialEq, Eq)]
pub struct Decimal {
    pub negative: bool,
    pub magnitude: Vec<u8>,
    pub exponent: i64,
}

impl View for Decimal {
    type V = DecimalValue;

    open spec fn view(&self) -> DecimalValue {
        DecimalValue {
            negative: self.negative,
            magnitude: le_value(self.magnitude@),
            exponent: self.exponent as int,
        }
    }
}

/// The largest power of ten that an integer part is asked for.
pub const MAX_INTEGER_EXPONENT: i64 = 77;

/// The largest exponent, up or down, of a number of moderate size.
pub const MAX_EXPONENT: i64 = 4096;

/// The bytes that hold the magnitude of a number of moderate size.
pub const MAX_MAGNITUDE_BYTES: usize = 512;

/// The most digits that a result is computed to.
pub const MAX_PRECISION: usize = 1024;

/// Whether a number is of moderate size.
pub open spec fn moderate(x: DecimalValue) -> bool {
    &&& -MAX_EXPONENT <= x.exponent <= MAX_EXPONENT
    &&& x.magnitude < pow256(MAX_MAGNITUDE_BYTES as nat)
}

/// Whether results can be computed to a precision: it is not zero, which
/// would stand for no limit, and not beyond the most digits.
pub open spec fn usable_precision(precision: nat) -> bool {
    0 < precision <= MAX_PRECISION
}

/// `x` rounded to `precision` digits.
pub uninterp spec fn decimal_rounded(x: DecimalValue, precision: nat) -> DecimalValue;

/// `a - b` to `precision` digits.
pub uninterp spec fn decimal_difference(a: DecimalValue, b: DecimalValue, precision: nat) -> DecimalValue;

/// `a * b` to `precision` digits.
pub uninterp spec fn decimal_product(a: DecimalValue, b: DecimalValue, precision: nat) -> DecimalValue;

/// `a / b` to `precision` digits.
pub uninterp spec fn decimal_quotient(a: DecimalValue, b: DecimalValue, precision: nat) -> DecimalValue;

/// The natural logarithm of `x` to `precision` digits.
pub uninterp spec fn decimal_ln(x: DecimalValue, precision: nat) -> DecimalValue;

/// `x` raised to the power `n`, to `precision` digits.
pub uninterp spec fn decimal_power(x: DecimalValue, n: u64, precision: nat) -> DecimalValue;

/// `10^n`.
pub open spec fn pow10(n: nat) -> nat
    decreases n,
{
    if n == 0 {
        1
    } else {
        10 * pow10((n - 1) as nat)
    }
}

/// The integer part of the absolute value of a decimal.
pub open spec fn integer_part(x: DecimalValue) -> nat {
    if x.exponent >= 0 {
        x.magnitude * pow10(x.exponent as nat)
    } else {
        x.magnitude / pow10((-x.exponent) as nat)
    }
}

/// `FBig::with_precision` of `dashu`, rounding towards zero in base ten.
#[verifier::external_body]
pub(crate) fn dec_round(x: &Decimal, precision: usize) -> (r: Decimal)
    requires
        moderate(x@),
        usable_precision(precision as nat),
    ensures
        r@ == decimal_rounded(x@, precision as nat),
{
    let sign = if x.negative { Sign::Negative } else { Sign::Positive };
    let sig = IBig::from_parts(sign, UBig::from_le_bytes(&x.magnitude));
    let v = FBig::<Zero, 10>::from_parts(sig, x.exponent as isize).with_precision(precision).value();
    let (s, m) = v.repr().significand().clone().into_parts();
    Decimal { negative: s == Sign::Negative, magnitude: m.to_le_bytes(), exponent: v.repr().exponent() as i64 }
}

/// `Context::sub` of `dashu`, rounding towards zero in base ten.
#[verifier::external_body]
pub(crate) fn dec_sub(a: &Decimal, b: &Decimal, precision: usize) -> (r: Decimal)
    requires
        moderate(a@),
        moderate(b@),
        usable_precision(precision as nat),
    ensures
        r@ == decimal_difference(a@, b@, precision as nat),
{
    let sa = if a.negative { Sign::Negative } else { Sign::Positive };
    let sb = if b.negative { Sign::Negative } else { Sign::Positive };
    let ra = Repr::<10>::new(IBig::from_parts(sa, UBig::from_le_bytes(&a.magnitude)), a.exponent as isize);
    let rb = Repr::<10>::new(IBig::from_parts(sb, UBig::from_le_bytes(&b.magnitude)), b.exponent as isize);
    let v = Context::<Zero>::new(precision).sub(&ra, &rb).value();
    let (s, m) = v.repr().significand().clone().into_parts();
    Decimal { negative: s == Sign::Negative, magnitude: m.to_le_bytes(), exponent: v.repr().exponent() as i64 }
}

/// `Context::mul` of `dashu`, rounding towards zero in base ten.
#[verifier::external_body]
pub(crate) fn dec_mul(a: &Decimal, b: &Decimal, precision: usize) -> (r: Decimal)
    requires
        moderate(a@),
        moderate(b@),
        usable_precision(precision as nat),
    ensures
        r@ == decimal_product(a@, b@, precision as nat),
{
    let sa = if a.negative { Sign::Negative } else { Sign::Positive };
    let sb = if b.negative { Sign::Negative } else { Sign::Positive };
    let ra = Repr::<10>::new(IBig::from_parts(sa, UBig::from_le_bytes(&a.magnitude)), a.exponent as isize);
    let rb = Repr::<10>::new(IBig::from_parts(sb, UBig::from_le_bytes(&b.magnitude)), b.exponent as isize);
    let v = Context::<Zero>::new(precision).mul(&ra, &rb).value();
    let (s, m) = v.repr().significand().clone().into_parts();
    Decimal { negative: s == Sign::Negative, magnitude: m.to_le_bytes(), exponent: v.repr().exponent() as i64 }
}

/// `Context::div` of `dashu`, rounding towards zero in base ten. The call
/// panics on a zero divisor.
#[verifier::external_body]
pub(crate) fn dec_div(a: &Decimal, b: &Decimal, precision: usize) -> (r: Decimal)
    requires
        moderate(a@),
        moderate(b@),
        usable_precision(precision as nat),
        b@.magnitude > 0,
    ensures
        r@ == decimal_quotient(a@, b@, precision as nat),
{
    let sa = if a.negative { Sign::Negative } else { Sign::Positive };
    let sb = if b.negative { Sign::Negative } else { Sign::Positive };
    let ra = Repr::<10>::new(IBig::from_parts(sa, UBig::from_le_bytes(&a.magnitude)), a.exponent as isize);
    let rb = Repr::<10>::new(IBig::from_parts(sb, UBig::from_le_bytes(&b.magnitude)), b.exponent as isize);
    let v = Context::<Zero>::new(precision).div(&ra, &rb).value();
    let (s, m) = v.repr().significand().clone().into_parts();
    Decimal { negative: s == Sign::Negative, magnitude: m.to_le_bytes(), exponent: v.repr().exponent() as i64 }
}

/// `Context::ln` of `dashu`, rounding towards zero in base ten. The call
/// is for numbers above zero.
#[verifier::external_body]
pub(crate) fn dec_ln(x: &Decimal, precision: usize) -> (r: Decimal)
    requires
        moderate(x@),
        usable_precision(precision as nat),
        !x@.negative,
        x@.magnitude > 0,
    ensures
        r@ == decimal_ln(x@, precision as nat),
{
    let rx = Repr::<10>::new(IBig::from(UBig::from_le_bytes(&x.magnitude)), x.exponent as isize);
    let v = Context::<Zero>::new(precision).ln(&rx).value();
    let (s, m) = v.repr().significand().clone().into_parts();
    Decimal { negative: s == Sign::Negative, magnitude: m.to_le_bytes(), exponent: v.repr().exponent() as i64 }
}

/// `Context::powi` of `dashu`, rounding towards zero in base ten.
#[verifier::external_body]
pub(crate) fn dec_powi(x: &Decimal, n: u64, precision: usize) -> (r: Decimal)
    requires
        moderate(x@),
        n <= 2,
        usable_precision(precision as nat),
    ensures
        r@ == decimal_power(x@, n, precision as nat),
{
    let sx = if x.negative { Sign::Negative } else { Sign::Positive };
    let rx = Repr::<10>::new(IBig::from_parts(sx, UBig::from_le_bytes(&x.magnitude)), x.exponent as isize);
    let v = Context::<Zero>::new(precision).powi(&rx, IBig::from(n)).value();
    let (s, m) = v.repr().significand().clone().into_parts();
    Decimal { negative: s == Sign::Negative, magnitude: m.to_le_bytes(), exponent: v.repr().exponent() as i64 }
}

/// `FBig::to_int` of `dashu`, rounding towards zero: the integer part of
/// the number, by its sign and the little-endian bytes of its magnitude.
/// Zero has no sign.
#[verifier::external_body]
pub(crate) fn dec_to_int(x: &Decimal) -> (r: (bool, Vec<u8>))
    requires
        moderate(x@),
        x.exponent <= MAX_INTEGER_EXPONENT,
    ensures
        le_value(r.1@) == integer_part(x@),
        r.0 == (x.negative && integer_part(x@) > 0),
{
    let sx = if x.negative { Sign::Negative } else { Sign::Positive };
    let sig = IBig::from_parts(sx, UBig::from_le_bytes(&x.magnitude));
    let (s, m) = FBig::<Zero, 10>::from_parts(sig, x.exponent as isize).to_int().value().into_parts();
    (s == Sign::Negative, m.to_le_bytes())
}

impl Decimal {
    /// The decimal of an integer.
    pub fn from_u64(v: u64) -> (r: Decimal)
        ensures
            r@ == (DecimalValue { negative: false, magnitude: v as nat, exponent: 0 }),
            moderate(r@),
    {
        let mut magnitude: Vec<u8> = Vec::new();
        push_le(&mut magnitude, v, 8);
        proof {
            lemma_pow256_values();
            lemma_le_value_of_bytes(v as nat, 8);
            lemma_pow256_monotonic(8, MAX_MAGNITUDE_BYTES as nat);
            assert(magnitude@ =~= le_bytes(v as nat, 8));
        }
        Decimal { negative: false, magnitude, exponent: 0 }
    }

    /// Whether the number is of moderate size.
    pub fn is_moderate(&self) -> (r: bool)
        ensures
            r == moderate(self@),
    {
        -MAX_EXPONENT <= self.exponent && self.exponent <= MAX_EXPONENT && fits_in(
            self.magnitude.as_slice(),
            MAX_MAGNITUDE_BYTES,
        )
    }

    /// Whether the number is zero.
    pub fn is_zero(&self) -> (r: bool)
        ensures
            r == (self@.magnitude == 0),
    {
        let mut i: usize = 0;
        while i < self.magnitude.len()
            invariant
                i <= self.magnitude.len(),
                forall|j: int| 0 <= j < i ==> self.magnitude@[j] == 0,
            decreases self.magnitude.len() - i,
        {
            if self.magnitude[i] != 0 {
                proof {
                    lemma_nonzero_byte(self.magnitude@, i as int);
                }
                return false;
            }
            i += 1;
        }
        proof {
            lemma_zero_bytes(self.magnitude@);
        }
        true
    }

    /// Whether the number is above zero.
    pub fn is_positive(&self) -> (r: bool)
        ensures
            r == (!self@.negative && self@.magnitude > 0),
    {
        !self.negative && !self.is_zero()
    }
}

} // verus!
