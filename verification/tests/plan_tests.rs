use bot::accounts::Address;
use bot::plan::{plan_swaps, starting_bin_array_index};

#[test]
fn bin_arrays_round_toward_minus_infinity() {
    assert_eq!(starting_bin_array_index(69, 69, true), 0);
    assert_eq!(starting_bin_array_index(70, 70, true), 1);
    assert_eq!(starting_bin_array_index(-1, -1, true), -1);
    assert_eq!(starting_bin_array_index(-70, -70, false), -1);
    assert_eq!(starting_bin_array_index(-71, -71, false), -2);
}

#[test]
fn start_moves_to_active_array_when_target_is_behind() {
    // selling X: the price moves down, start no lower than the active array
    assert_eq!(starting_bin_array_index(-1, 100, true), 1);
    assert_eq!(starting_bin_array_index(500, 100, true), 7);
    // buying X: the price moves up, start no higher than the active array
    assert_eq!(starting_bin_array_index(-1, 100, false), -1);
    assert_eq!(starting_bin_array_index(500, 100, false), 1);
}

#[test]
fn plan_offsets_follow_direction() {
    let pool = Address { bytes: [7u8; 32] };
    let up = plan_swaps(pool, 1000, true, 5, 400);
    let ids: Vec<i32> = up.iter().map(|p| p.bin_array_idx).collect();
    assert_eq!(ids, vec![5, 6, 7]);
    assert!(up.iter().all(|p| p.amount_in == 1000 && p.min_amount_out == 400 && p.swap_for_y));
    let down = plan_swaps(pool, 1000, false, 5, 400);
    let ids: Vec<i32> = down.iter().map(|p| p.bin_array_idx).collect();
    assert_eq!(ids, vec![5, 4, 3]);
    assert!(down.iter().all(|p| p.lb_pair.bytes == [7u8; 32] && !p.swap_for_y));
}
