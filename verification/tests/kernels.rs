use sum_bench::kernels::{
    add_into, add_lanes_32, chunked_sum, lane_sum_16, lane_sum_8, relaxed_sum, sequential_sum,
    try_add_into, unrolled_sum,
};

fn mixed_input() -> Vec<u64> {
    vec![3, 1, 4, 1, 5, 9, 2, 6, 5, 3, 5, 8, 9, 7, 9, 3, 2, 3, 8, 4, 6, 2, 6, 4, 3, 3, 8, 3, 2, 7, 9, 5, 0, 2, 8]
}

#[test]
fn empty_input_sums_to_zero() {
    let empty: Vec<u64> = Vec::new();
    assert_eq!(sequential_sum(&empty), 0);
    assert_eq!(relaxed_sum(&empty), 0);
    assert_eq!(unrolled_sum(&empty), 0);
    assert_eq!(lane_sum_8(&empty), 0);
    assert_eq!(lane_sum_16(&empty), 0);
}

#[test]
fn kernels_agree_on_mixed_input() {
    let v = mixed_input();
    let reference = sequential_sum(&v);
    let expected: u64 = 165;
    assert_eq!(reference, expected);
    assert_eq!(relaxed_sum(&v), reference);
    assert_eq!(unrolled_sum(&v), reference);
    assert_eq!(lane_sum_8(&v), reference);
    assert_eq!(lane_sum_16(&v), reference);
    for width in [8usize, 16, 32] {
        assert_eq!(chunked_sum(&v, width), reference);
    }
}

#[test]
fn remainder_lengths_match_sequential() {
    for width in [8usize, 16, 32] {
        let w = width as u64;
        for n in [0u64, 1, w - 1, w, w + 1, 2 * w] {
            let v: Vec<u64> = (0..n).collect();
            let expected: u64 = n * n.saturating_sub(1) / 2;
            assert_eq!(sequential_sum(&v), expected);
            assert_eq!(chunked_sum(&v, width), expected);
        }
    }
    // The fixed-width kernels at exactly their own boundary lengths.
    for n in [0u64, 1, 7, 8, 9, 16] {
        let v: Vec<u64> = (0..n).collect();
        assert_eq!(lane_sum_8(&v), sequential_sum(&v));
    }
    for n in [0u64, 1, 15, 16, 17, 32] {
        let v: Vec<u64> = (0..n).collect();
        assert_eq!(lane_sum_16(&v), sequential_sum(&v));
    }
    for n in [0u64, 1, 31, 32, 33, 64] {
        let v: Vec<u64> = (0..n).collect();
        assert_eq!(unrolled_sum(&v), sequential_sum(&v));
    }
}

#[test]
fn repeated_calls_are_bit_identical() {
    let v = mixed_input();
    assert_eq!(sequential_sum(&v), sequential_sum(&v));
    assert_eq!(relaxed_sum(&v), relaxed_sum(&v));
    assert_eq!(unrolled_sum(&v), unrolled_sum(&v));
    assert_eq!(lane_sum_8(&v), lane_sum_8(&v));
    assert_eq!(lane_sum_16(&v), lane_sum_16(&v));
}

#[test]
fn add_into_elementwise_example() {
    let mut dst: Vec<u64> = vec![1, 2, 3];
    let src: Vec<u64> = vec![10, 20, 30];
    add_into(&mut dst, &src);
    assert_eq!(dst, vec![11, 22, 33]);
}

#[test]
fn add_into_length_mismatch_is_rejected() {
    let mut dst: Vec<u64> = vec![1, 2, 3];
    let src: Vec<u64> = vec![10, 20];
    let ok = try_add_into(&mut dst, &src);
    assert!(!ok);
    assert_eq!(dst, vec![1, 2, 3]);

    let mut dst2: Vec<u64> = vec![1, 2];
    let src2: Vec<u64> = vec![10, 20];
    assert!(try_add_into(&mut dst2, &src2));
    assert_eq!(dst2, vec![11, 22]);
}

#[test]
fn add_lanes_32_adds_each_lane() {
    let x: Vec<u64> = (0..32).collect();
    let y: Vec<u64> = (0..32).map(|i: u64| 100 * i).collect();
    let r = add_lanes_32(&x, &y);
    assert_eq!(r.len(), 32);
    for i in 0..32u64 {
        assert_eq!(r[i as usize], 101 * i);
    }
}

#[test]
fn single_element_at_the_limit() {
    let v: Vec<u64> = vec![u64::MAX];
    assert_eq!(sequential_sum(&v), u64::MAX);
    assert_eq!(unrolled_sum(&v), u64::MAX);
}

#[test]
fn end_to_end_power_of_two_of_ones() {
    let n: usize = 1 << 20;
    let v: Vec<u64> = vec![1; n];
    let expected: u64 = 1048576;
    assert_eq!(sequential_sum(&v), expected);
    assert_eq!(relaxed_sum(&v), expected);
    assert_eq!(unrolled_sum(&v), expected);
    assert_eq!(lane_sum_8(&v), expected);
    assert_eq!(lane_sum_16(&v), expected);
}
