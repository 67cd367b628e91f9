use sum_bench::harness::min_time_ps;

#[test]
fn reports_the_floor_not_an_average() {
    // A per-call cost that decreases monotonically, then holds at its floor.
    let samples_ns: Vec<u128> = vec![100_000, 50_000, 20_000, 10_000, 10_000, 10_000];
    let num_elems: u128 = 10;
    // floor: 10_000 ns * 1000 / 10 elements = 1_000_000 ps/element.
    assert_eq!(min_time_ps(&samples_ns, num_elems), 1_000_000);
}

#[test]
fn normalizes_a_single_trial_exactly() {
    let samples_ns: Vec<u128> = vec![12_345];
    assert_eq!(min_time_ps(&samples_ns, 1000), 12_345);
    // Integer division truncates.
    let odd: Vec<u128> = vec![7];
    assert_eq!(min_time_ps(&odd, 3), 2_333);
}

#[test]
fn no_trials_yields_the_largest_time() {
    let samples_ns: Vec<u128> = Vec::new();
    assert_eq!(min_time_ps(&samples_ns, 1), u128::MAX);
}

#[test]
fn minimum_is_taken_over_normalized_times() {
    // The minimum may occur anywhere in the series, not only at the end.
    let samples_ns: Vec<u128> = vec![40, 15, 90, 15, 60];
    assert_eq!(min_time_ps(&samples_ns, 4), 3_750);
}
