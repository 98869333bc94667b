use bot::decimal::Dec;
use bot::price::{
    bin_id_from_ratio, get_id_from_price, price_per_lamport_to_price_per_token,
    price_per_token_to_per_lamport, q64x64_price_to_decimal, Rounding,
};
use rust_decimal::Decimal;

fn dec(mantissa: i128, scale: u32) -> Dec {
    Dec { mantissa, scale }
}

fn value(d: Dec) -> Decimal {
    Decimal::from_i128_with_scale(d.mantissa, d.scale)
}

#[test]
fn price_of_one_is_bin_zero() {
    assert_eq!(get_id_from_price(25, &dec(1, 0), Rounding::Down), Some(0));
    assert_eq!(get_id_from_price(25, &dec(1, 0), Rounding::Up), Some(0));
}

#[test]
fn price_equal_to_base_is_bin_one() {
    // 1 + 10 / 10000 = 1.001
    assert_eq!(get_id_from_price(10, &dec(1001, 3), Rounding::Down), Some(1));
    assert_eq!(get_id_from_price(10, &dec(1001, 3), Rounding::Up), Some(1));
}

#[test]
fn price_between_bins_rounds_up() {
    // log(2) / log(1.01) = 69.66...
    assert_eq!(get_id_from_price(100, &dec(2, 0), Rounding::Down), Some(70));
    assert_eq!(get_id_from_price(100, &dec(2, 0), Rounding::Up), Some(70));
    // log(0.5) / log(1.01) = -69.66...
    assert_eq!(get_id_from_price(100, &dec(5, 1), Rounding::Down), Some(-69));
    assert_eq!(get_id_from_price(100, &dec(5, 1), Rounding::Up), Some(-69));
    // log(10) / log(2) = 3.32...: between bins 3 and 4 of base 2
    assert_eq!(get_id_from_price(10000, &dec(10, 0), Rounding::Down), Some(4));
    assert_eq!(get_id_from_price(10000, &dec(10, 0), Rounding::Up), Some(4));
}

#[test]
fn zero_bin_step_has_no_bin() {
    // base 1 has logarithm 0, and the division by it fails
    assert_eq!(get_id_from_price(0, &dec(2, 0), Rounding::Down), None);
}

#[test]
fn ratio_rounding() {
    assert_eq!(bin_id_from_ratio(dec(-25, 1), Rounding::Down), Some(-2));
    assert_eq!(bin_id_from_ratio(dec(-25, 1), Rounding::Up), Some(-2));
    assert_eq!(bin_id_from_ratio(dec(7, 0), Rounding::Up), Some(7));
    assert_eq!(bin_id_from_ratio(dec(7, 0), Rounding::Down), Some(7));
    assert_eq!(bin_id_from_ratio(dec(2147483648, 0), Rounding::Down), None);
    assert_eq!(bin_id_from_ratio(dec(-21474836485, 1), Rounding::Up), Some(i32::MIN));
    assert_eq!(bin_id_from_ratio(dec(-21474836485, 1), Rounding::Down), Some(i32::MIN));
    assert_eq!(bin_id_from_ratio(dec(21474836475, 1), Rounding::Down), None);
}

#[test]
fn q64x64_one_is_one() {
    let r = q64x64_price_to_decimal(1u128 << 64).unwrap();
    assert_eq!(value(r), Decimal::ONE);
    let half = q64x64_price_to_decimal(1u128 << 63).unwrap();
    assert_eq!(value(half), Decimal::from_i128_with_scale(5, 1));
}

#[test]
fn q64x64_beyond_96_bits_is_none() {
    assert_eq!(q64x64_price_to_decimal(1u128 << 96).is_none(), true);
    assert!(q64x64_price_to_decimal((1u128 << 96) - 1).is_some());
}

#[test]
fn token_price_to_lamport_price() {
    // 0.4 USDC (6 decimals) per JUP (6 decimals)
    let r = price_per_token_to_per_lamport(dec(4, 1), 6, 6).unwrap();
    assert_eq!(value(r), Decimal::from_i128_with_scale(4, 1));
    // 100 USDC (6 decimals) per SOL (9 decimals): 0.1 lamport of USDC per lamport
    let r = price_per_token_to_per_lamport(dec(100, 0), 9, 6).unwrap();
    assert_eq!(value(r), Decimal::from_i128_with_scale(1, 1));
}

#[test]
fn lamport_price_to_token_price_round_trip() {
    let per_lamport = price_per_token_to_per_lamport(dec(100, 0), 9, 6).unwrap();
    let per_token = price_per_lamport_to_price_per_token(per_lamport, 9, 6).unwrap();
    assert_eq!(value(per_token), Decimal::from(100));
}

#[test]
fn token_price_overflow_is_none() {
    let big = dec(79228162514264337593543950335, 0);
    assert!(price_per_token_to_per_lamport(big, 0, 28).is_none());
    // the overflow comes before 10^29 would be computed
    assert!(price_per_token_to_per_lamport(big, 29, 28).is_none());
}

#[test]
fn whole_q64x64_prices_convert_exactly() {
    let r = q64x64_price_to_decimal(3u128 << 64).unwrap();
    assert_eq!(value(r), Decimal::from(3));
    assert!(q64x64_price_to_decimal((1u128 << 96) - 1).is_some());
}

#[test]
fn conversions_invert_each_other() {
    let p = dec(4, 1);
    let l = price_per_token_to_per_lamport(p, 9, 6).unwrap();
    assert_eq!(value(l), Decimal::from_i128_with_scale(4, 4));
    let t = price_per_lamport_to_price_per_token(l, 9, 6).unwrap();
    assert_eq!(value(t), value(p));
    let p = dec(123456789, 5);
    let l = price_per_token_to_per_lamport(p, 6, 9).unwrap();
    let t = price_per_lamport_to_price_per_token(l, 6, 9).unwrap();
    assert_eq!(value(t), value(p));
}
