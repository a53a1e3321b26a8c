//! Fixed-point decimal numbers: a 96-bit mantissa scaled by a power of ten.
//!
//! The arithmetic is `rust_decimal`'s; the library holds a decimal as its
//! mantissa and scale.

use crate::error::ArithError;
use rust_decimal::Decimal;
use rust_decimal::MathematicalOps;
use vstd::arithmetic::power::pow;
use vstd::prelude::*;

verus! {

/// The largest mantissa: 96 bits.
pub const MAX_MANTISSA: i128 = 0xFFFF_FFFF_FFFF_FFFF_FFFF_FFFF;

/// The largest scale.
pub const MAX_SCALE: u32 = 28;

/// A decimal number `mantissa / 10^scale`. Rust's `==` on it compares the
/// parts; the operator table compares values (`1.5 == 1.50`).
#[derive(Debug, Clone, Copy, PartialEq, Eq, Structural)]
pub struct Dec {
    mantissa: i128,
    scale: u32,
}

/// Are these the parts of a decimal?
pub open spec fn parts_ok(mantissa: i128, scale: u32) -> bool {
    scale <= MAX_SCALE && -MAX_MANTISSA <= mantissa <= MAX_MANTISSA
}

/// The decimal with the value of an integer.
pub closed spec fn dec_of_int(i: i64) -> Dec {
    Dec { mantissa: i as i128, scale: 0 }
}

/// The sum that `rust_decimal` computes, or `None` where it overflows.
pub uninterp spec fn dec_add_of(a: Dec, b: Dec) -> Option<Dec>;

/// The difference that `rust_decimal` computes, or `None` where it overflows.
pub uninterp spec fn dec_sub_of(a: Dec, b: Dec) -> Option<Dec>;

/// The product that `rust_decimal` computes, or `None` where it overflows.
pub uninterp spec fn dec_mul_of(a: Dec, b: Dec) -> Option<Dec>;

/// The quotient that `rust_decimal` computes, or `None` where it fails.
pub uninterp spec fn dec_div_of(a: Dec, b: Dec) -> Option<Dec>;

/// The remainder that `rust_decimal` computes, or `None` where it fails.
pub uninterp spec fn dec_rem_of(a: Dec, b: Dec) -> Option<Dec>;

/// The power that `rust_decimal` computes, or `None` where it fails.
pub uninterp spec fn dec_pow_of(a: Dec, b: Dec) -> Option<Dec>;

impl Dec {
    #[verifier::type_invariant]
    spec fn inv(self) -> bool {
        parts_ok(self.mantissa, self.scale)
    }

    /// The mantissa.
    pub closed spec fn spec_mantissa(self) -> i128 {
        self.mantissa
    }

    /// The scale.
    pub closed spec fn spec_scale(self) -> u32 {
        self.scale
    }

    /// Is `a` less than `b` as numbers?
    pub open spec fn lt(a: Dec, b: Dec) -> bool {
        a.spec_mantissa() * pow(10, b.spec_scale() as nat) < b.spec_mantissa() * pow(
            10,
            a.spec_scale() as nat,
        )
    }

    /// Are `a` and `b` equal as numbers?
    pub open spec fn same(a: Dec, b: Dec) -> bool {
        a.spec_mantissa() * pow(10, b.spec_scale() as nat) == b.spec_mantissa() * pow(
            10,
            a.spec_scale() as nat,
        )
    }

    /// The decimal `mantissa / 10^scale`, where those are the parts of one.
    pub fn new(mantissa: i128, scale: u32) -> (r: Option<Dec>)
        ensures
            r is Some <==> parts_ok(mantissa, scale),
            r is Some ==> r->Some_0.spec_mantissa() == mantissa && r->Some_0.spec_scale() == scale,
    {
        if scale <= MAX_SCALE && -MAX_MANTISSA <= mantissa && mantissa <= MAX_MANTISSA {
            Some(Dec { mantissa, scale })
        } else {
            None
        }
    }

    /// The decimal with the value of an integer.
    pub fn from_int(i: i64) -> (r: Dec)
        ensures
            r == dec_of_int(i),
            r.spec_mantissa() == i,
            r.spec_scale() == 0,
    {
        Dec { mantissa: i as i128, scale: 0 }
    }

    pub fn mantissa(&self) -> (r: i128)
        ensures
            r == self.spec_mantissa(),
    {
        self.mantissa
    }

    pub fn scale(&self) -> (r: u32)
        ensures
            r == self.spec_scale(),
    {
        self.scale
    }

    /// Is this zero?
    pub fn is_zero(&self) -> (r: bool)
        ensures
            r == (self.spec_mantissa() == 0),
    {
        self.mantissa == 0
    }
}

/// Relies on `rust_decimal`'s `Decimal::checked_add`: the sum, or `None` on
/// overflow.
#[verifier::external_body]
fn checked_add(a: Dec, b: Dec) -> (r: Option<Dec>)
    ensures
        r == dec_add_of(a, b),
{
    let x = Decimal::from_i128_with_scale(a.mantissa, a.scale);
    let y = Decimal::from_i128_with_scale(b.mantissa, b.scale);
    x.checked_add(y).map(|d| Dec { mantissa: d.mantissa(), scale: d.scale() })
}

/// Relies on `rust_decimal`'s `Decimal::checked_sub`: the difference, or
/// `None` on overflow.
#[verifier::external_body]
fn checked_sub(a: Dec, b: Dec) -> (r: Option<Dec>)
    ensures
        r == dec_sub_of(a, b),
{
    let x = Decimal::from_i128_with_scale(a.mantissa, a.scale);
    let y = Decimal::from_i128_with_scale(b.mantissa, b.scale);
    x.checked_sub(y).map(|d| Dec { mantissa: d.mantissa(), scale: d.scale() })
}

/// Relies on `rust_decimal`'s `Decimal::checked_mul`: the product, or `None`
/// on overflow.
#[verifier::external_body]
fn checked_mul(a: Dec, b: Dec) -> (r: Option<Dec>)
    ensures
        r == dec_mul_of(a, b),
{
    let x = Decimal::from_i128_with_scale(a.mantissa, a.scale);
    let y = Decimal::from_i128_with_scale(b.mantissa, b.scale);
    x.checked_mul(y).map(|d| Dec { mantissa: d.mantissa(), scale: d.scale() })
}

/// Relies on `rust_decimal`'s `Decimal::checked_div`: the quotient, or
/// `None` on overflow or division by zero.
#[verifier::external_body]
fn checked_div(a: Dec, b: Dec) -> (r: Option<Dec>)
    ensures
        r == dec_div_of(a, b),
{
    let x = Decimal::from_i128_with_scale(a.mantissa, a.scale);
    let y = Decimal::from_i128_with_scale(b.mantissa, b.scale);
    x.checked_div(y).map(|d| Dec { mantissa: d.mantissa(), scale: d.scale() })
}

/// Relies on `rust_decimal`'s `Decimal::checked_rem`: the remainder, or
/// `None` on overflow or division by zero.
#[verifier::external_body]
fn checked_rem(a: Dec, b: Dec) -> (r: Option<Dec>)
    ensures
        r == dec_rem_of(a, b),
{
    let x = Decimal::from_i128_with_scale(a.mantissa, a.scale);
    let y = Decimal::from_i128_with_scale(b.mantissa, b.scale);
    x.checked_rem(y).map(|d| Dec { mantissa: d.mantissa(), scale: d.scale() })
}

/// Relies on `rust_decimal`'s `MathematicalOps::checked_powd` (built with
/// the `maths-nopanic` feature, so that it returns rather than panics): the
/// power, or `None` on overflow.
#[verifier::external_body]
fn checked_pow(a: Dec, b: Dec) -> (r: Option<Dec>)
    ensures
        r == dec_pow_of(a, b),
{
    let x = Decimal::from_i128_with_scale(a.mantissa, a.scale);
    let y = Decimal::from_i128_with_scale(b.mantissa, b.scale);
    x.checked_powd(y).map(|d| Dec { mantissa: d.mantissa(), scale: d.scale() })
}

/// Relies on `rust_decimal`'s `Ord for Decimal`, which orders decimals by
/// their values: negative, zero or positive as `a` is less than, equal to or
/// greater than `b`.
#[verifier::external_body]
pub(crate) fn compare(a: Dec, b: Dec) -> (r: i8)
    ensures
        (r < 0) == Dec::lt(a, b),
        (r == 0) == Dec::same(a, b),
        (r > 0) == Dec::lt(b, a),
{
    let x = Decimal::from_i128_with_scale(a.mantissa, a.scale);
    let y = Decimal::from_i128_with_scale(b.mantissa, b.scale);
    match x.cmp(&y) {
        core::cmp::Ordering::Less => -1,
        core::cmp::Ordering::Equal => 0,
        core::cmp::Ordering::Greater => 1,
    }
}

pub open spec fn checked_dec(r: Option<Dec>, e: ArithError) -> Result<Dec, ArithError> {
    match r {
        Some(v) => Ok(v),
        None => Err(e),
    }
}

/// What an arithmetic operator gives on two decimals: `+ - * / % **`, with
/// division by zero caught first; any other operator has no cell and leaves
/// the left operand.
pub open spec fn dec_arith(op: crate::builtin::Op, a: Dec, b: Dec) -> Result<Dec, ArithError> {
    match op {
        crate::builtin::Op::Add => checked_dec(dec_add_of(a, b), ArithError::AddOverflow),
        crate::builtin::Op::Sub => checked_dec(dec_sub_of(a, b), ArithError::SubOverflow),
        crate::builtin::Op::Mul => checked_dec(dec_mul_of(a, b), ArithError::MulOverflow),
        crate::builtin::Op::Div => if b.spec_mantissa() == 0 {
            Err(ArithError::DivByZero)
        } else {
            checked_dec(dec_div_of(a, b), ArithError::DivOverflow)
        },
        crate::builtin::Op::Rem => checked_dec(dec_rem_of(a, b), ArithError::RemByZeroOrOverflow),
        crate::builtin::Op::Pow => checked_dec(dec_pow_of(a, b), ArithError::PowOverflow),
        _ => Ok(a),
    }
}

/// An arithmetic operator on two decimals.
pub fn dec_arith_exec(op: crate::builtin::Op, a: Dec, b: Dec) -> (r: Result<Dec, ArithError>)
    ensures
        r == dec_arith(op, a, b),
{
    match op {
        crate::builtin::Op::Add => match checked_add(a, b) {
            Some(v) => Ok(v),
            None => Err(ArithError::AddOverflow),
        },
        crate::builtin::Op::Sub => match checked_sub(a, b) {
            Some(v) => Ok(v),
            None => Err(ArithError::SubOverflow),
        },
        crate::builtin::Op::Mul => match checked_mul(a, b) {
            Some(v) => Ok(v),
            None => Err(ArithError::MulOverflow),
        },
        crate::builtin::Op::Div => if b.is_zero() {
            Err(ArithError::DivByZero)
        } else {
            match checked_div(a, b) {
                Some(v) => Ok(v),
                None => Err(ArithError::DivOverflow),
            }
        },
        crate::builtin::Op::Rem => match checked_rem(a, b) {
            Some(v) => Ok(v),
            None => Err(ArithError::RemByZeroOrOverflow),
        },
        crate::builtin::Op::Pow => match checked_pow(a, b) {
            Some(v) => Ok(v),
            None => Err(ArithError::PowOverflow),
        },
        _ => Ok(a),
    }
}

} // verus!
