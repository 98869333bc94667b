//! Prices: the bin id of a price, Q64.64 prices, and the conversion between
//! the price of a whole token and the price of one lamport.

use vstd::prelude::*;
use crate::decimal::{
    Dec, MAX_MANTISSA, MAX_SCALE, checked_add, checked_div, checked_log10, ceil, decimal_add, decimal_div,
    decimal_log10, decimal_mul, checked_mul, ten, exact_result, is_quotient, same_value, lemma_pow10_add, at_least_one, from_i32, from_u128, from_u16, int_pow, lemma_pow10_positive, pow10, one, powu,
    to_i32, two,
};
use crate::dlmm::{basis_point_max, scale_offset};
use vstd::arithmetic::div_mod::{
    lemma_div_multiples_vanish, lemma_fundamental_div_mod, lemma_mod_bound,
    lemma_mod_multiples_vanish,
};

verus! {

/// Which way a price between two bins is rounded.
#[derive(Clone, Copy, Debug, PartialEq, Eq, Structural)]
pub enum Rounding {
    Up,
    Down,
}

/// The bin id of a ratio of logarithms: the ratio rounded up to an integer,
/// when that integer fits an `i32`. A price between two bins goes to the
/// upper one, whichever rounding is asked; on a bin the two roundings agree.
pub open spec fn ratio_to_bin_id(ratio: Dec, rounding: Rounding) -> Option<i32> {
    let k = ratio.ceil_value();
    if i32::MIN <= k <= i32::MAX {
        Some(k as i32)
    } else {
        None
    }
}

/// The bin id of `price` for a pool of bin step `bin_step` (in basis points):
/// `log10(price) / log10(1 + bin_step / 10000)`, rounded up to a bin, each
/// step computed by `rust_decimal`.
pub open spec fn id_from_price(bin_step: u16, price: Dec, rounding: Rounding) -> Option<i32> {
    match decimal_div(Dec::of_int(bin_step as int), Dec::of_int(10000)) {
        None => None,
        Some(bps) => id_from_bps(bps, price, rounding),
    }
}

/// The bin id of `price` for bins that grow by the fraction `bps`:
/// `log10(price) / log10(1 + bps)`, rounded up to a bin, each step computed by
/// `rust_decimal`.
pub open spec fn id_from_bps(bps: Dec, price: Dec, rounding: Rounding) -> Option<i32> {
    match decimal_add(Dec::of_int(1), bps) {
        None => None,
        Some(base) => match decimal_log10(price) {
            None => None,
            Some(log_price) => match decimal_log10(base) {
                None => None,
                Some(log_base) => match decimal_div(log_price, log_base) {
                    None => None,
                    Some(ratio) => ratio_to_bin_id(ratio, rounding),
                },
            },
        },
    }
}

/// A bin step in basis points as a fraction: `bin_step / 10000`.
pub open spec fn bin_step_fraction(bin_step: u16) -> Dec {
    Dec { mantissa: bin_step as i128, scale: 4 }
}

/// The fraction of a bin step is exactly `bin_step / 10000`, for every bin
/// step: its value times 10000 is the bin step.
pub proof fn lemma_bin_step_fraction_is_exact(bin_step: u16)
    ensures
        bin_step_fraction(bin_step).wf(),
        bin_step_fraction(bin_step).mantissa * 10000 == bin_step * pow10(
            bin_step_fraction(bin_step).scale as nat,
        ),
{
    reveal_with_fuel(pow10, 5);
    assert(pow10(4) == 10000);
}

/// Rounds a ratio of logarithms to a bin id: up, to the bin at or above it.
/// A ratio between two bins thus goes to the upper one, as the bin id of a
/// price does; `rounding` makes no difference to the result.
pub fn bin_id_from_ratio(ratio: Dec, rounding: Rounding) -> (r: Option<i32>)
    requires
        ratio.wf(),
    ensures
        r == ratio_to_bin_id(ratio, rounding),
{
    let id = ceil(ratio);
    proof {
        lemma_pow10_positive(0);
    }
    to_i32(id)
}

/// Calculate the bin id based on price. If the bin id is in between 2 bins, it will round up.
///
/// Where a logarithm cannot be computed for a positive price, this returns
/// `None`.
pub fn get_id_from_price(bin_step: u16, price: &Dec, rounding: Rounding) -> (r: Option<i32>)
    requires
        price.wf(),
        price.mantissa > 0,
    ensures
        r == id_from_price(bin_step, *price, rounding),
        exists|bps: Dec|
            bps.wf() && same_value(bps, bin_step_fraction(bin_step)) && #[trigger] id_from_bps(
                bps,
                *price,
                rounding,
            ) == r,
{
    let step = from_u16(bin_step)?;
    let points = from_i32(basis_point_max())?;
    let bps = checked_div(step, points);
    proof {
        reveal_with_fuel(pow10, 5);
        assert(pow10(4) == 10000);
        assert(pow10(0) == 1);
        let d = bin_step_fraction(bin_step);
        assert(step.mantissa == bin_step && step.scale == 0);
        assert(points.mantissa == 10000 && points.scale == 0);
        assert(d.mantissa == bin_step as int && d.scale == 4);
        assert(d.mantissa * points.mantissa * pow10(step.scale as nat) == bin_step as int * 10000);
        assert(step.mantissa * pow10((d.scale + points.scale) as nat) == bin_step as int * 10000);
        assert(is_quotient(step, points, d));
        assert(bin_step_fraction(bin_step).wf());
    }
    let bps = bps.unwrap();
    proof {
        assert(id_from_bps(bps, *price, rounding) == id_from_price(bin_step, *price, rounding));
    }
    let base = checked_add(one(), bps)?;
    let log_price = checked_log10(*price)?;
    let log_base = checked_log10(base)?;
    let ratio = checked_div(log_price, log_base)?;
    bin_id_from_ratio(ratio, rounding)
}

/// `2^64`, the denominator of a Q64.64 price.
pub open spec fn q64_one() -> int {
    18446744073709551616
}

proof fn lemma_two_pow_64()
    ensures
        int_pow(2, 64) == q64_one(),
{
    reveal_with_fuel(int_pow, 65);
}

/// Convert Q64xQ64 price to human readable decimal. This is price per lamport.
pub fn q64x64_price_to_decimal(q64x64_price: u128) -> (r: Option<Dec>)
    ensures
        r == (if q64x64_price <= MAX_MANTISSA {
            decimal_div(Dec::of_int(q64x64_price as int), Dec::of_int(q64_one()))
        } else {
            None
        }),
        q64x64_price <= MAX_MANTISSA ==> r is Some,
        q64x64_price <= MAX_MANTISSA && (q64x64_price as int) % q64_one() == 0 ==> exact_result(
            r,
            Dec::of_int((q64x64_price as int) / q64_one()),
        ),
{
    let q_price = from_u128(q64x64_price)?;
    proof {
        lemma_two_pow_64();
    }
    let scale_off = powu(two(), scale_offset() as u64);
    let r = checked_div(q_price, scale_off);
    proof {
        assert(pow10(0) == 1);
        assert(at_least_one(scale_off));
        if (q64x64_price as int) % q64_one() == 0 {
            let k = (q64x64_price as int) / q64_one();
            let d = Dec::of_int(k);
            assert(k * q64_one() == q64x64_price);
            assert(is_quotient(q_price, scale_off, d));
        }
    }
    r
}

/// `10^n` as a decimal of scale 0.
pub open spec fn ten_pow(n: nat) -> Dec {
    Dec::of_int(int_pow(10, n))
}

/// Largest number of token decimals for which `10^decimals` fits a decimal.
pub open spec fn max_token_decimals() -> nat {
    28
}

proof fn lemma_ten_pow_monotone(n: nat, m: nat)
    requires
        n <= m,
    ensures
        1 <= int_pow(10, n) <= int_pow(10, m),
    decreases m,
{
    if n < m {
        lemma_ten_pow_monotone(n, (m - 1) as nat);
    } else if m > 0 {
        lemma_ten_pow_monotone((m - 1) as nat, (m - 1) as nat);
    }
}

proof fn lemma_ten_pow_is_pow10(n: nat)
    ensures
        int_pow(10, n) == pow10(n),
    decreases n,
{
    if n > 0 {
        lemma_ten_pow_is_pow10((n - 1) as nat);
    }
}

proof fn lemma_ten_pow_fits(n: nat)
    requires
        n <= max_token_decimals(),
    ensures
        n > 0 ==> 10 <= int_pow(10, n),
        int_pow(10, n) <= MAX_MANTISSA,
{
    lemma_ten_pow_monotone(n, 28);
    if n > 0 {
        lemma_ten_pow_monotone((n - 1) as nat, (n - 1) as nat);
    }
    lemma_ten_pow_is_pow10(28);
    assert(pow10(28) == 10000000000000000000000000000) by {
        reveal_with_fuel(pow10, 29);
    }
}

/// `price_per_token * 10^quote / 10^base`, each step computed by `rust_decimal`.
pub open spec fn per_lamport_price(price_per_token: Dec, base: u8, quote: u8) -> Option<Dec> {
    match decimal_mul(price_per_token, ten_pow(quote as nat)) {
        None => None,
        Some(scaled) => decimal_div(scaled, ten_pow(base as nat)),
    }
}

/// `10^base * price_per_lamport / 10^quote`, each step computed by `rust_decimal`.
pub open spec fn per_token_price(price_per_lamport: Dec, base: u8, quote: u8) -> Option<Dec> {
    match decimal_mul(ten_pow(base as nat), price_per_lamport) {
        None => None,
        Some(scaled) => decimal_div(scaled, ten_pow(quote as nat)),
    }
}

/// `10^n` for a number of token decimals.
fn ten_to(n: u8) -> (r: Dec)
    requires
        n as nat <= max_token_decimals(),
    ensures
        r == ten_pow(n as nat),
        r.wf(),
        r.mantissa == pow10(n as nat),
        r.scale == 0,
{
    proof {
        lemma_ten_pow_fits(n as nat);
        lemma_ten_pow_is_pow10(n as nat);
    }
    if n == 0 {
        proof {
            reveal_with_fuel(int_pow, 1);
        }
        one()
    } else {
        powu(ten(), n as u64)
    }
}

/// price_per_lamport = price_per_token * 10 ** quote_token_decimal / 10 ** base_token_decimal
///
/// The price per token comes as a decimal; reading it from a float is left to
/// the caller. `10^decimals` overflows past 28 decimals: the quote token's
/// decimals are at most 28, and so are the base token's unless the
/// multiplication already overflowed (then the result is `None` before
/// `10^base_token_decimal` is computed). Where the exact price per lamport is a
/// decimal and `price_per_token * 10^quote` fits, the result is exact; with
/// the price's scale plus the base token's decimals at most 28 it always is.
pub fn price_per_token_to_per_lamport(
    price_per_token: Dec,
    base_token_decimal: u8,
    quote_token_decimal: u8,
) -> (r: Option<Dec>)
    requires
        price_per_token.wf(),
        quote_token_decimal as nat <= max_token_decimals(),
        base_token_decimal as nat <= max_token_decimals() || decimal_mul(
            price_per_token,
            ten_pow(quote_token_decimal as nat),
        ) is None,
    ensures
        r == per_lamport_price(price_per_token, base_token_decimal, quote_token_decimal),
        forall|d: Dec|
            #[trigger] is_lamport_price(price_per_token, base_token_decimal, quote_token_decimal, d)
                && d.wf() && scaled_fits(price_per_token, quote_token_decimal) ==> exact_result(r, d),
        scaled_fits(price_per_token, quote_token_decimal) && price_per_token.scale + base_token_decimal
            <= MAX_SCALE ==> r is Some,
{
    let ten_quote = ten_to(quote_token_decimal);
    let scaled = checked_mul(price_per_token, ten_quote);
    let p = price_per_token;
    let ghost pq = p.mantissa * pow10(quote_token_decimal as nat);
    match scaled {
        None => {
            proof {
                lemma_pow10_positive(p.scale as nat);
                assert(!scaled_fits(p, quote_token_decimal)) by {
                    if scaled_fits(p, quote_token_decimal) {
                        assert(p.mantissa * ten_quote.mantissa == pq);
                    }
                }
            }
            None
        },
        Some(m) => {
            let ten_base = ten_to(base_token_decimal);
            let r = checked_div(m, ten_base);
            proof {
                lemma_pow10_positive(p.scale as nat);
                lemma_pow10_positive(base_token_decimal as nat);
                assert forall|d: Dec|
                    #[trigger] is_lamport_price(p, base_token_decimal, quote_token_decimal, d) && d.wf()
                        && scaled_fits(p, quote_token_decimal) implies exact_result(r, d) by {
                    lemma_lamport_quotient(p, base_token_decimal, quote_token_decimal, m, d);
                }
                if scaled_fits(p, quote_token_decimal) && p.scale + base_token_decimal <= MAX_SCALE {
                    let d = Dec {
                        mantissa: pq as i128,
                        scale: (p.scale + base_token_decimal) as u32,
                    };
                    lemma_pow10_add(base_token_decimal as nat, p.scale as nat);
                    let x = pow10(base_token_decimal as nat);
                    let y = pow10(p.scale as nat);
                    let z = pow10(quote_token_decimal as nat);
                    assert(pq * x * y == p.mantissa * z * (x * y)) by (nonlinear_arith)
                        requires
                            pq == p.mantissa * z,
                    ;
                    assert(pow10(d.scale as nat) == x * y);
                    assert(is_lamport_price(p, base_token_decimal, quote_token_decimal, d));
                }
            }
            r
        },
    }
}

/// `price_per_token * 10^quote` fits a decimal's mantissa.
pub open spec fn scaled_fits(price: Dec, decimals: u8) -> bool {
    -MAX_MANTISSA <= price.mantissa * pow10(decimals as nat) <= MAX_MANTISSA
}

/// `l` is exactly `price_per_token * 10^quote / 10^base`.
pub open spec fn is_lamport_price(price_per_token: Dec, base: u8, quote: u8, l: Dec) -> bool {
    l.mantissa * pow10(base as nat) * pow10(price_per_token.scale as nat) == price_per_token.mantissa
        * pow10(quote as nat) * pow10(l.scale as nat)
}

/// `t` is exactly `10^base * price_per_lamport / 10^quote`.
pub open spec fn is_token_price(price_per_lamport: Dec, base: u8, quote: u8, t: Dec) -> bool {
    t.mantissa * pow10(quote as nat) * pow10(price_per_lamport.scale as nat) == price_per_lamport.mantissa
        * pow10(base as nat) * pow10(t.scale as nat)
}

proof fn lemma_lamport_quotient(p: Dec, base: u8, quote: u8, m: Dec, d: Dec)
    requires
        p.wf(),
        is_lamport_price(p, base, quote, d),
        scaled_fits(p, quote),
        base as nat <= max_token_decimals(),
        quote as nat <= max_token_decimals(),
        decimal_mul(p, ten_pow(quote as nat)) == Some(m),
        p.mantissa * pow10(quote as nat) == 0 ==> m == Dec::of_int(0),
        p.mantissa * pow10(quote as nat) != 0 ==> m == (Dec {
            mantissa: (p.mantissa * pow10(quote as nat)) as i128,
            scale: p.scale,
        }),
    ensures
        is_quotient(m, Dec { mantissa: pow10(base as nat) as i128, scale: 0 }, d),
{
    lemma_pow10_positive(p.scale as nat);
    lemma_pow10_positive(base as nat);
    lemma_ten_pow_fits(base as nat);
    lemma_ten_pow_is_pow10(base as nat);
    let x = pow10(base as nat) as int;
    let y = pow10(p.scale as nat) as int;
    let z = pow10(quote as nat) as int;
    let w = pow10(d.scale as nat) as int;
    if p.mantissa * z == 0 {
        assert(p.mantissa * z * w == 0) by (nonlinear_arith)
            requires
                p.mantissa * z == 0,
        ;
        assert(d.mantissa * x * y == 0);
        assert(d.mantissa * x == 0) by (nonlinear_arith)
            requires
                d.mantissa * x * y == 0,
                y >= 1,
        ;
        assert(pow10(0) == 1);
    } else {
        assert(d.mantissa * x * y == p.mantissa * z * w);
    }
}

/// price_per_token = price_per_lamport * 10 ** base_token_decimal / 10 ** quote_token_decimal
///
/// The price per lamport comes as a decimal; reading it from a float is left
/// to the caller. Both numbers of decimals are at most 28, as for
/// `price_per_token_to_per_lamport`. Where the exact price per token is a
/// decimal and `10^base * price_per_lamport` fits, the result is exact.
pub fn price_per_lamport_to_price_per_token(
    price_per_lamport: Dec,
    base_token_decimal: u8,
    quote_token_decimal: u8,
) -> (r: Option<Dec>)
    requires
        price_per_lamport.wf(),
        base_token_decimal as nat <= max_token_decimals(),
        quote_token_decimal as nat <= max_token_decimals(),
    ensures
        r == per_token_price(price_per_lamport, base_token_decimal, quote_token_decimal),
        forall|d: Dec|
            #[trigger] is_token_price(price_per_lamport, base_token_decimal, quote_token_decimal, d)
                && d.wf() && scaled_fits(price_per_lamport, base_token_decimal) ==> exact_result(r, d),
{
    let one_ui_base_token_amount = ten_to(base_token_decimal);
    let one_ui_quote_token_amount = ten_to(quote_token_decimal);
    let l = price_per_lamport;
    let scaled = checked_mul(one_ui_base_token_amount, price_per_lamport);
    match scaled {
        None => {
            proof {
                assert(one_ui_base_token_amount.mantissa * l.mantissa == l.mantissa * pow10(
                    base_token_decimal as nat,
                )) by (nonlinear_arith)
                    requires
                        one_ui_base_token_amount.mantissa == pow10(base_token_decimal as nat),
                ;
            }
            None
        },
        Some(m) => {
            let r = checked_div(m, one_ui_quote_token_amount);
            proof {
                assert forall|d: Dec|
                    #[trigger] is_token_price(l, base_token_decimal, quote_token_decimal, d) && d.wf()
                        && scaled_fits(l, base_token_decimal) implies exact_result(r, d) by {
                    let x = pow10(base_token_decimal as nat) as int;
                    assert(one_ui_base_token_amount.mantissa * l.mantissa == x * l.mantissa);
                    assert(l.mantissa * x == x * l.mantissa) by (nonlinear_arith);
                    lemma_token_quotient(l, base_token_decimal, quote_token_decimal, m, d);
                    lemma_pow10_positive(quote_token_decimal as nat);
                    assert(one_ui_quote_token_amount == Dec {
                        mantissa: pow10(quote_token_decimal as nat) as i128,
                        scale: 0,
                    });
                    assert(is_quotient(m, one_ui_quote_token_amount, d));
                }
            }
            r
        },
    }
}

proof fn lemma_token_quotient(l: Dec, base: u8, quote: u8, m: Dec, d: Dec)
    requires
        l.wf(),
        is_token_price(l, base, quote, d),
        scaled_fits(l, base),
        base as nat <= max_token_decimals(),
        quote as nat <= max_token_decimals(),
        pow10(base as nat) * l.mantissa == 0 ==> m == Dec::of_int(0),
        pow10(base as nat) * l.mantissa != 0 ==> m == (Dec {
            mantissa: (pow10(base as nat) * l.mantissa) as i128,
            scale: l.scale,
        }),
    ensures
        is_quotient(m, Dec { mantissa: pow10(quote as nat) as i128, scale: 0 }, d),
{
    lemma_pow10_positive(l.scale as nat);
    lemma_pow10_positive(quote as nat);
    lemma_pow10_positive(base as nat);
    lemma_ten_pow_fits(quote as nat);
    lemma_ten_pow_is_pow10(quote as nat);
    let x = pow10(base as nat) as int;
    let y = pow10(l.scale as nat) as int;
    let z = pow10(quote as nat) as int;
    let w = pow10(d.scale as nat) as int;
    if x * l.mantissa == 0 {
        assert(l.mantissa == 0) by (nonlinear_arith)
            requires
                x * l.mantissa == 0,
                x >= 1,
        ;
        assert(l.mantissa * x * w == 0) by (nonlinear_arith)
            requires
                l.mantissa == 0,
        ;
        assert(d.mantissa * z * y == 0);
        assert(d.mantissa * z == 0) by (nonlinear_arith)
            requires
                d.mantissa * z * y == 0,
                y >= 1,
        ;
        assert(pow10(0) == 1);
        let dv = Dec { mantissa: pow10(quote as nat) as i128, scale: 0 };
        assert(dv.mantissa == z);
        assert(d.mantissa * dv.mantissa * pow10(m.scale as nat) == 0);
    } else {
        assert(l.mantissa * x == x * l.mantissa) by (nonlinear_arith);
        assert(m.mantissa == x * l.mantissa);
        assert(m.scale == l.scale);
        assert(d.mantissa * z * y == l.mantissa * x * w);
        assert(l.mantissa * x * w == (x * l.mantissa) * w) by (nonlinear_arith);
        assert(pow10((d.scale + 0) as nat) == w);
        let dv = Dec { mantissa: pow10(quote as nat) as i128, scale: 0 };
        assert(dv.mantissa == z);
        assert(d.mantissa * dv.mantissa * pow10(m.scale as nat) == d.mantissa * z * y);
        assert(m.mantissa * pow10((d.scale + dv.scale) as nat) == (x * l.mantissa) * w);
    }
}

/// Converting a price per token to a price per lamport and back gives the
/// price per token again ("solve for price_per_lamport"): when `l` is exactly
/// `price_per_token * 10^quote / 10^base`, the price per token is exactly
/// `10^base * l / 10^quote`. With the exactness clauses of the two
/// conversions, the second returns the price per token's value whenever
/// neither has to round and `10^base * l` fits.
pub proof fn lemma_price_conversions_invert(price_per_token: Dec, l: Dec, base: u8, quote: u8)
    requires
        is_lamport_price(price_per_token, base, quote, l),
    ensures
        is_token_price(l, base, quote, price_per_token),
{
    let x = pow10(base as nat) as int;
    let z = pow10(quote as nat) as int;
    let y = pow10(price_per_token.scale as nat) as int;
    let w = pow10(l.scale as nat) as int;
    assert(price_per_token.mantissa * z * w == l.mantissa * x * y);
}

proof fn lemma_floor_ceil(m: int, p: int)
    requires
        p >= 1,
    ensures
        (m / p) * p <= m < (m / p) * p + p,
        -((-m) / p) * p - p < m <= -((-m) / p) * p,
        m / p <= -((-m) / p) <= m / p + 1,
        (m % p == 0) == (m / p == -((-m) / p)),
{
    lemma_fundamental_div_mod(m, p);
    lemma_fundamental_div_mod(-m, p);
    lemma_mod_bound(m, p);
    lemma_mod_bound(-m, p);
    let q = m / p;
    let q2 = (-m) / p;
    assert(m == p * q + m % p);
    assert(-m == p * q2 + (-m) % p);
    assert(q * p == p * q) by (nonlinear_arith);
    assert(q2 * p == p * q2) by (nonlinear_arith);
    assert(-q2 * p == -(p * q2)) by (nonlinear_arith);
    assert(q <= -q2 <= q + 1) by (nonlinear_arith)
        requires
            m == p * q + m % p,
            -m == p * q2 + (-m) % p,
            0 <= m % p < p,
            0 <= (-m) % p < p,
            p >= 1,
    ;
    if m % p == 0 {
        assert(-m == p * (-q)) by (nonlinear_arith)
            requires
                m == p * q + m % p,
                m % p == 0,
        ;
        assert((-m) % p == 0 && (-m) / p == -q) by {
            lemma_mod_multiples_vanish(-q, 0, p);
            lemma_div_multiples_vanish(-q, p);
            assert(p * (-q) == -q * p + 0) by (nonlinear_arith);
        }
    } else {
        assert(q != -q2) by (nonlinear_arith)
            requires
                m == p * q + m % p,
                -m == p * q2 + (-m) % p,
                0 < m % p < p,
                0 <= (-m) % p < p,
        ;
    }
}

/// A bin id is the bin at or above the ratio, and the one just below lies
/// under it: with `ratio = m / 10^s`, the bin id is the `k` with
/// `(k - 1) * 10^s < m <= k * 10^s`. A ratio strictly between two bins thus
/// gets the upper one, whichever rounding is asked.
pub proof fn lemma_bin_id_brackets_ratio(ratio: Dec, rounding: Rounding)
    requires
        ratio.wf(),
    ensures
        ratio_to_bin_id(ratio, rounding) matches Some(k) ==> {
            let p = pow10(ratio.scale as nat) as int;
            (k - 1) * p < ratio.mantissa <= k * p
        },
{
    let p = pow10(ratio.scale as nat) as int;
    lemma_pow10_positive(ratio.scale as nat);
    lemma_floor_ceil(ratio.mantissa as int, p);
    let c = -((-(ratio.mantissa as int)) / p);
    assert((c - 1) * p == c * p - p) by (nonlinear_arith);
}

/// The bin id of a price does not depend on the rounding asked: a price
/// between two bins goes to the upper one either way.
pub proof fn lemma_rounding_does_not_change_bin(bin_step: u16, price: Dec)
    ensures
        id_from_price(bin_step, price, Rounding::Down) == id_from_price(
            bin_step,
            price,
            Rounding::Up,
        ),
{
}

} // verus!
