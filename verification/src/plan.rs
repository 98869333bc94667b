//! Where to start swapping: the bin array of the target price, moved to the
//! active bin array when the target lies behind it, and the three swaps sent
//! from there.

use vstd::prelude::*;
use crate::accounts::Address;
use crate::dlmm::{bin_id_to_bin_array_index, bins_per_array};
use crate::swap::{SwapParameters, bin_array_steps_fit};

verus! {

/// The bin array that holds a bin.
pub open spec fn bin_array_of(bin_id: int) -> int {
    bin_id / bins_per_array()
}

/// The bin array to start from: the target's, unless the active bin array lies
/// further along the swap (above it when selling X for Y, below it when buying
/// X), in which case the active one.
pub open spec fn starting_index(bin_id: int, active_id: int, swap_for_y: bool) -> int {
    let target = bin_array_of(bin_id);
    let active = bin_array_of(active_id);
    if swap_for_y && active > target || !swap_for_y && active < target {
        active
    } else {
        target
    }
}

/// The offsets of the three swaps from the starting bin array.
pub open spec fn swap_offsets(swap_for_y: bool) -> Seq<int> {
    if swap_for_y {
        seq![0, 1, 2]
    } else {
        seq![0, -1, -2]
    }
}

/// A bin lies in the bin array `bin_array_of` names: bin array `k` holds the
/// bins `70 * k` to `70 * k + 69`.
pub proof fn lemma_bin_in_its_array(bin_id: int)
    ensures
        bins_per_array() * bin_array_of(bin_id) <= bin_id < bins_per_array() * bin_array_of(bin_id)
            + bins_per_array(),
{
    let k = bin_id / 70;
    assert(70 * k <= bin_id < 70 * k + 70);
}

/// The start is the further of the target's bin array and the active one
/// along the swap: the larger when selling X for Y, the smaller when buying X.
/// It is the active bin array only when that lies strictly beyond the
/// target's.
pub proof fn lemma_start_is_the_further_array(bin_id: int, active_id: int, swap_for_y: bool)
    ensures
        swap_for_y ==> starting_index(bin_id, active_id, swap_for_y) == (if active_id / 70 > bin_id
            / 70 {
            active_id / 70
        } else {
            bin_id / 70
        }),
        !swap_for_y ==> starting_index(bin_id, active_id, swap_for_y) == (if active_id / 70 < bin_id
            / 70 {
            active_id / 70
        } else {
            bin_id / 70
        }),
        starting_index(bin_id, active_id, swap_for_y) >= bin_id / 70 <==> (swap_for_y || active_id
            / 70 >= bin_id / 70),
{
}

/// The bin array to start swapping from, for a target bin and the pool's
/// active bin.
pub fn starting_bin_array_index(bin_id: i32, active_id: i32, swap_for_y: bool) -> (r: i32)
    ensures
        r == starting_index(bin_id as int, active_id as int, swap_for_y),
        r == bin_array_of(bin_id as int) || r == bin_array_of(active_id as int),
        swap_for_y ==> r >= bin_array_of(active_id as int),
        !swap_for_y ==> r <= bin_array_of(active_id as int),
        swap_for_y ==> r >= bin_id as int / 70 && r >= active_id as int / 70,
        !swap_for_y ==> r <= bin_id as int / 70 && r <= active_id as int / 70,
        i32::MIN / 70 - 1 <= r <= i32::MAX / 70,
{
    let mut bin_array_idx = bin_id_to_bin_array_index(bin_id).unwrap();
    let active_bin_array_idx = bin_id_to_bin_array_index(active_id).unwrap();
    if swap_for_y && active_bin_array_idx > bin_array_idx || !swap_for_y && active_bin_array_idx
        < bin_array_idx {
        bin_array_idx = active_bin_array_idx;
    }
    bin_array_idx
}

/// The three swaps to send from a starting bin array: the same pool, amount,
/// direction and minimum output, starting at that bin array and the next two
/// against the direction of the swap.
pub fn plan_swaps(
    lb_pair: Address,
    amount_in: u64,
    swap_for_y: bool,
    bin_array_idx: i32,
    min_amount_out: u64,
) -> (r: Vec<SwapParameters>)
    requires
        if swap_for_y {
            bin_array_idx <= i32::MAX - 2
        } else {
            bin_array_idx >= i32::MIN + 2
        },
    ensures
        r.len() == 3,
        forall|i: int|
            0 <= i < 3 ==> {
                let p = #[trigger] r@[i];
                &&& p.lb_pair == lb_pair
                &&& p.amount_in == amount_in
                &&& p.swap_for_y == swap_for_y
                &&& p.min_amount_out == min_amount_out
                &&& p.bin_array_idx == bin_array_idx + swap_offsets(swap_for_y)[i]
                &&& (i32::MIN + 2 <= bin_array_idx <= i32::MAX - 2 ==> bin_array_steps_fit(
                    p.bin_array_idx,
                    swap_for_y,
                ))
            },
{
    let offsets: [i32; 3] = if swap_for_y {
        [0, 1, 2]
    } else {
        [0, -1, -2]
    };
    let mut plan: Vec<SwapParameters> = Vec::new();
    for k in 0..3
        invariant
            plan.len() == k,
            if swap_for_y {
                bin_array_idx <= i32::MAX - 2
            } else {
                bin_array_idx >= i32::MIN + 2
            },
            offsets@ == (if swap_for_y { seq![0i32, 1, 2] } else { seq![0i32, -1i32, -2i32] }),
            forall|i: int|
                0 <= i < k ==> {
                    let p = #[trigger] plan@[i];
                    &&& p.lb_pair == lb_pair
                    &&& p.amount_in == amount_in
                    &&& p.swap_for_y == swap_for_y
                    &&& p.min_amount_out == min_amount_out
                    &&& p.bin_array_idx == bin_array_idx + swap_offsets(swap_for_y)[i]
                },
    {
        let offset = offsets[k];
        plan.push(
            SwapParameters {
                lb_pair,
                amount_in,
                swap_for_y,
                bin_array_idx: bin_array_idx + offset,
                min_amount_out,
            },
        );
    }
    plan
}

} // verus!
