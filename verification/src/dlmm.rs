//! Items of the `lb_clmm` program crate that the bot's logic reads: its
//! constants and its bin-array arithmetic.

use vstd::prelude::*;
use lb_clmm::state::bin::BinArray;

verus! {

/// Number of bins that one bin array holds.
pub open spec fn bins_per_array() -> int {
    70
}

/// `lb_clmm::constants::BASIS_POINT_MAX`: the number of basis points in one,
/// 10000.
#[verifier::external_body]
pub(crate) fn basis_point_max() -> (r: i32)
    ensures
        r == 10000,
{
    lb_clmm::constants::BASIS_POINT_MAX
}

/// `lb_clmm::math::u64x64_math::SCALE_OFFSET`: the number of fractional bits of
/// a Q64.64 price, 64.
#[verifier::external_body]
pub(crate) fn scale_offset() -> (r: u8)
    ensures
        r == 64,
{
    lb_clmm::math::u64x64_math::SCALE_OFFSET
}

/// `BinArray::bin_id_to_bin_array_index` (lb_clmm): divides by
/// `MAX_BIN_PER_ARRAY` (70), truncating, and steps one lower for a negative bin
/// id that is not a multiple of 70, which is division rounded toward minus
/// infinity. The one error it can return (the step below `i32::MIN`) cannot
/// occur, since the quotient is at least `i32::MIN / 70`.
#[verifier::external_body]
pub(crate) fn bin_id_to_bin_array_index(bin_id: i32) -> (r: Option<i32>)
    ensures
        r == Some((bin_id as int / bins_per_array()) as i32),
{
    BinArray::bin_id_to_bin_array_index(bin_id).ok()
}

} // verus!
