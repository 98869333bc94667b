//! Decimal numbers as the library sees them: a signed 96-bit mantissa and a
//! power-of-ten scale, with the arithmetic of `rust_decimal` behind wrappers.

use vstd::prelude::*;
use rust_decimal::prelude::{FromPrimitive, ToPrimitive};
use rust_decimal::{Decimal, MathematicalOps};

verus! {

/// Largest mantissa magnitude a decimal can hold: 2^96 - 1.
pub const MAX_MANTISSA: i128 = 79228162514264337593543950335i128;

/// Largest scale a decimal can hold.
pub const MAX_SCALE: u32 = 28u32;

/// A decimal number `mantissa / 10^scale`.
#[derive(Clone, Copy, Debug)]
pub struct Dec {
    pub mantissa: i128,
    pub scale: u32,
}

/// `10^n`.
pub open spec fn pow10(n: nat) -> nat
    decreases n,
{
    if n == 0 {
        1
    } else {
        10 * pow10((n - 1) as nat)
    }
}

/// `b^e` over the integers.
pub open spec fn int_pow(b: int, e: nat) -> int
    decreases e,
{
    if e == 0 {
        1
    } else {
        b * int_pow(b, (e - 1) as nat)
    }
}

impl Dec {
    /// Mantissa and scale lie in the ranges a decimal can represent.
    pub open spec fn wf(self) -> bool {
        &&& -MAX_MANTISSA <= self.mantissa <= MAX_MANTISSA
        &&& self.scale <= MAX_SCALE
    }

    /// The integer `k`, as a decimal of scale 0.
    pub open spec fn of_int(k: int) -> Dec {
        Dec { mantissa: k as i128, scale: 0 }
    }

    /// The largest integer not above the value.
    pub open spec fn floor_value(self) -> int {
        self.mantissa as int / (pow10(self.scale as nat) as int)
    }

    /// The smallest integer not below the value.
    pub open spec fn ceil_value(self) -> int {
        -((-(self.mantissa as int)) / (pow10(self.scale as nat) as int))
    }

    /// The value with its fractional part dropped (rounded toward zero).
    pub open spec fn trunc_value(self) -> int {
        if self.mantissa >= 0 {
            self.floor_value()
        } else {
            self.ceil_value()
        }
    }
}

pub proof fn lemma_pow10_add(a: nat, b: nat)
    ensures
        pow10(a + b) == pow10(a) * pow10(b),
    decreases a,
{
    if a > 0 {
        let a1 = (a - 1) as nat;
        lemma_pow10_add(a1, b);
        assert((a + b) as nat == (a1 + b) as nat + 1);
        assert(pow10(a + b) == 10 * pow10((a1 + b) as nat));
        assert(pow10(a) == 10 * pow10(a1));
        let x = pow10(a1);
        let y = pow10(b);
        assert(10 * (x * y) == (10 * x) * y) by (nonlinear_arith);
    } else {
        assert(pow10(0) == 1);
        assert(a + b == b);
    }
}

pub proof fn lemma_pow10_positive(n: nat)
    ensures
        pow10(n) >= 1,
    decreases n,
{
    if n > 0 {
        lemma_pow10_positive((n - 1) as nat);
    }
}

/// Two decimals have the same value.
pub open spec fn same_value(x: Dec, y: Dec) -> bool {
    x.mantissa * pow10(y.scale as nat) == y.mantissa * pow10(x.scale as nat)
}

/// `d` is exactly the quotient `a / b`.
pub open spec fn is_quotient(a: Dec, b: Dec, d: Dec) -> bool {
    d.mantissa * b.mantissa * pow10(a.scale as nat) == a.mantissa * pow10((d.scale + b.scale) as nat)
}

/// A result that is there and has the value of `d`.
pub open spec fn exact_result(r: Option<Dec>, d: Dec) -> bool {
    r matches Some(q) && same_value(q, d)
}

/// The value of `b` is at least 1 in magnitude.
pub open spec fn at_least_one(b: Dec) -> bool {
    b.mantissa >= pow10(b.scale as nat) || -b.mantissa >= pow10(b.scale as nat)
}

/// What `Decimal::checked_div` returns on two decimals.
pub uninterp spec fn decimal_div(a: Dec, b: Dec) -> Option<Dec>;

/// What `Decimal::checked_add` returns on two decimals.
pub uninterp spec fn decimal_add(a: Dec, b: Dec) -> Option<Dec>;

/// What `Decimal::checked_mul` returns on two decimals.
pub uninterp spec fn decimal_mul(a: Dec, b: Dec) -> Option<Dec>;

/// What `MathematicalOps::checked_log10` returns on a decimal.
pub uninterp spec fn decimal_log10(a: Dec) -> Option<Dec>;

/// `Decimal::checked_div` (rust_decimal): the quotient `a / b`, rounded to at
/// most 28 fractional digits, or `None` on overflow or division by zero. Stated
/// here: the result is the named quotient; it is `None` when `b` is zero; a
/// zero dividend gives zero (scale 0); a divisor of magnitude at least 1 never
/// overflows (the quotient is no larger than the dividend); when the exact
/// quotient is a decimal, the result has its value (the long division stops
/// once the remainder is zero, and drops trailing zeros); and a returned
/// decimal is well formed. How an inexact quotient is rounded is not stated.
#[verifier::external_body]
pub(crate) fn checked_div(a: Dec, b: Dec) -> (r: Option<Dec>)
    requires
        a.wf(),
        b.wf(),
    ensures
        r == decimal_div(a, b),
        b.mantissa == 0 ==> r is None,
        b.mantissa != 0 && a.mantissa == 0 ==> r == Some(Dec::of_int(0)),
        b.mantissa != 0 && at_least_one(b) ==> r is Some,
        forall|d: Dec| #[trigger] is_quotient(a, b, d) && d.wf() && b.mantissa != 0 ==> exact_result(r, d),
        r matches Some(q) ==> q.wf(),
{
    let x = Decimal::from_i128_with_scale(a.mantissa, a.scale);
    let y = Decimal::from_i128_with_scale(b.mantissa, b.scale);
    match x.checked_div(y) {
        Some(q) => Some(Dec { mantissa: q.mantissa(), scale: q.scale() }),
        None => None,
    }
}

/// `Decimal::checked_add` (rust_decimal): the sum `a + b`, rescaled to a common
/// scale and rounded when it does not fit, or `None` on overflow. Stated here:
/// the result is the named sum and a returned decimal is well formed. The
/// rounding is not stated.
#[verifier::external_body]
pub(crate) fn checked_add(a: Dec, b: Dec) -> (r: Option<Dec>)
    requires
        a.wf(),
        b.wf(),
    ensures
        r == decimal_add(a, b),
        r matches Some(q) ==> q.wf(),
{
    let x = Decimal::from_i128_with_scale(a.mantissa, a.scale);
    let y = Decimal::from_i128_with_scale(b.mantissa, b.scale);
    match x.checked_add(y) {
        Some(q) => Some(Dec { mantissa: q.mantissa(), scale: q.scale() }),
        None => None,
    }
}

/// `Decimal::checked_mul` (rust_decimal): the product `a * b`, rounded to at
/// most 28 fractional digits, or `None` on overflow. Stated here: the result is
/// the named product; a zero product is zero with scale 0; a product whose
/// mantissa fits 96 bits and whose scale (the sum of the scales) is at most 28
/// is exact, with that mantissa and scale (the source rescales only a product
/// above 96 bits or a scale above 28); and a returned decimal is well formed.
/// How an inexact product is rounded is not stated.
#[verifier::external_body]
pub(crate) fn checked_mul(a: Dec, b: Dec) -> (r: Option<Dec>)
    requires
        a.wf(),
        b.wf(),
    ensures
        r == decimal_mul(a, b),
        a.mantissa * b.mantissa == 0 ==> r == Some(Dec::of_int(0)),
        a.mantissa * b.mantissa != 0 && -MAX_MANTISSA <= a.mantissa * b.mantissa <= MAX_MANTISSA
            && a.scale + b.scale <= MAX_SCALE ==> r == Some(
            Dec {
                mantissa: (a.mantissa * b.mantissa) as i128,
                scale: (a.scale + b.scale) as u32,
            },
        ),
        r matches Some(q) ==> q.wf(),
{
    let x = Decimal::from_i128_with_scale(a.mantissa, a.scale);
    let y = Decimal::from_i128_with_scale(b.mantissa, b.scale);
    match x.checked_mul(y) {
        Some(q) => Some(Dec { mantissa: q.mantissa(), scale: q.scale() }),
        None => None,
    }
}

/// `MathematicalOps::checked_log10` (rust_decimal, feature `maths`): an
/// approximation of the base-10 logarithm. Stated here: the result is the
/// named logarithm; it is `None` for a value that is zero or negative (the
/// source returns early there); for a mantissa that is a power of ten,
/// `10^k / 10^s`, it is exactly the integer `k - s` (the source's early exits
/// for the value 1 and for `1 / 10^s`, and its loop that counts the zeros of
/// such a mantissa); and a returned decimal is well formed. How close the
/// approximation is otherwise, and whether it can fail on another positive
/// value, is not stated.
#[verifier::external_body]
pub(crate) fn checked_log10(a: Dec) -> (r: Option<Dec>)
    requires
        a.wf(),
    ensures
        r == decimal_log10(a),
        a.mantissa <= 0 ==> r is None,
        forall|k: nat|
            #![trigger pow10(k)]
            a.mantissa == pow10(k) ==> r == Some(Dec::of_int(k - a.scale)),
        r matches Some(q) ==> q.wf(),
{
    let x = Decimal::from_i128_with_scale(a.mantissa, a.scale);
    match x.checked_log10() {
        Some(q) => Some(Dec { mantissa: q.mantissa(), scale: q.scale() }),
        None => None,
    }
}

/// `Decimal::ceil` (rust_decimal): the smallest integer not below the value,
/// returned with scale 0.
#[verifier::external_body]
pub(crate) fn ceil(a: Dec) -> (r: Dec)
    requires
        a.wf(),
    ensures
        r.scale == 0,
        r.mantissa == a.ceil_value(),
        r.wf(),
{
    let q = Decimal::from_i128_with_scale(a.mantissa, a.scale).ceil();
    Dec { mantissa: q.mantissa(), scale: q.scale() }
}

/// `ToPrimitive::to_i32` on a `Decimal` (rust_decimal with num-traits): the
/// value rounded toward zero when that fits an `i32`, else `None`.
#[verifier::external_body]
pub(crate) fn to_i32(a: Dec) -> (r: Option<i32>)
    requires
        a.wf(),
    ensures
        r == (if i32::MIN <= a.trunc_value() <= i32::MAX {
            Some(a.trunc_value() as i32)
        } else {
            None
        }),
{
    Decimal::from_i128_with_scale(a.mantissa, a.scale).to_i32()
}

/// `FromPrimitive::from_u16` on `Decimal` (rust_decimal): always the integer
/// `n` with scale 0.
#[verifier::external_body]
pub(crate) fn from_u16(n: u16) -> (r: Option<Dec>)
    ensures
        r == Some(Dec::of_int(n as int)),
{
    match Decimal::from_u16(n) {
        Some(q) => Some(Dec { mantissa: q.mantissa(), scale: q.scale() }),
        None => None,
    }
}

/// `FromPrimitive::from_i32` on `Decimal` (rust_decimal): always the integer
/// `n` with scale 0.
#[verifier::external_body]
pub(crate) fn from_i32(n: i32) -> (r: Option<Dec>)
    ensures
        r == Some(Dec::of_int(n as int)),
{
    match Decimal::from_i32(n) {
        Some(q) => Some(Dec { mantissa: q.mantissa(), scale: q.scale() }),
        None => None,
    }
}

/// `FromPrimitive::from_u128` on `Decimal` (rust_decimal): the integer `n` with
/// scale 0 when it fits 96 bits, else `None`.
#[verifier::external_body]
pub(crate) fn from_u128(n: u128) -> (r: Option<Dec>)
    ensures
        r == (if n <= MAX_MANTISSA { Some(Dec::of_int(n as int)) } else { None }),
{
    match Decimal::from_u128(n) {
        Some(q) => Some(Dec { mantissa: q.mantissa(), scale: q.scale() }),
        None => None,
    }
}

/// `MathematicalOps::powu` (rust_decimal, feature `maths`) on an integer base
/// of at least 2: the exact power, with scale 0, when it fits 96 bits (the
/// source multiplies integers of scale 0, which stays exact until it overflows;
/// where it overflows, `powu` panics, so `requires` leaves that out).
#[verifier::external_body]
pub(crate) fn powu(a: Dec, exp: u64) -> (r: Dec)
    requires
        a.wf(),
        a.scale == 0,
        a.mantissa >= 2,
        int_pow(a.mantissa as int, exp as nat) <= MAX_MANTISSA,
    ensures
        r == Dec::of_int(int_pow(a.mantissa as int, exp as nat)),
        r.wf(),
{
    let q = Decimal::from_i128_with_scale(a.mantissa, a.scale).powu(exp);
    Dec { mantissa: q.mantissa(), scale: q.scale() }
}

/// `Decimal::ONE` (rust_decimal): the integer 1 with scale 0.
#[verifier::external_body]
pub(crate) fn one() -> (r: Dec)
    ensures
        r == Dec::of_int(1),
{
    Dec { mantissa: Decimal::ONE.mantissa(), scale: Decimal::ONE.scale() }
}

/// `Decimal::TWO` (rust_decimal): the integer 2 with scale 0.
#[verifier::external_body]
pub(crate) fn two() -> (r: Dec)
    ensures
        r == Dec::of_int(2),
{
    Dec { mantissa: Decimal::TWO.mantissa(), scale: Decimal::TWO.scale() }
}

/// `Decimal::TEN` (rust_decimal): the integer 10 with scale 0.
#[verifier::external_body]
pub(crate) fn ten() -> (r: Dec)
    ensures
        r == Dec::of_int(10),
{
    Dec { mantissa: Decimal::TEN.mantissa(), scale: Decimal::TEN.scale() }
}

} // verus!
