use argminmax::{
    argmax_i16, argmax_i32, argmax_u16, argmax_u8, argmax_with, argmin_i16, argmin_i32, argmin_u16,
    argmin_u8, argmin_with, simple_argmax, simple_argmin, ArgMinMax, Tier,
};

/// Deterministic pseudo-random values spread over the whole `u32` range.
fn noise(n: usize, seed: u64) -> Vec<u32> {
    let mut x = seed;
    let mut out = Vec::with_capacity(n);
    for _ in 0..n {
        x = x.wrapping_mul(6364136223846793005).wrapping_add(1442695040888963407);
        out.push((x >> 32) as u32);
    }
    out
}

fn data_i32(n: usize, seed: u64) -> Vec<i32> {
    noise(n, seed).into_iter().map(|v| v as i32).collect()
}

fn data_i16(n: usize, seed: u64) -> Vec<i16> {
    noise(n, seed).into_iter().map(|v| (v >> 16) as i16).collect()
}

fn data_u16(n: usize, seed: u64) -> Vec<u16> {
    noise(n, seed).into_iter().map(|v| (v >> 16) as u16).collect()
}

fn data_u8(n: usize, seed: u64) -> Vec<u8> {
    noise(n, seed).into_iter().map(|v| (v >> 24) as u8).collect()
}

const LENGTHS: [usize; 14] = [0, 1, 2, 3, 4, 5, 7, 8, 9, 15, 16, 17, 33, 1025];
const TIERS: [Tier; 3] = [Tier::Scalar, Tier::Lanes128, Tier::Lanes256];

#[test]
fn test_both_versions_return_the_same_results() {
    let data = data_i32(1025, 7);
    assert_eq!(data.len() % 4, 1);

    let min_index = argmin_i32(&data).unwrap();
    let max_index = argmax_i32(&data).unwrap();
    let argmin_index = simple_argmin(&data);
    let argmax_index = simple_argmax(&data);

    assert_eq!(argmin_index, min_index);
    assert_eq!(argmax_index, max_index);
}

#[test]
fn test_first_index_is_returned_when_identical_values_found() {
    let data = [10, i32::MAX, 6, i32::MIN, i32::MIN, i32::MAX, 10_000];
    let argmin_index = simple_argmin(&data);
    let argmin_simd_index = argmin_i32(&data).unwrap();
    assert_eq!(argmin_index, argmin_simd_index);
    assert_eq!(argmin_index, 3);

    let argmax_index = simple_argmax(&data);
    let argmax_simd_index = argmax_i32(&data).unwrap();
    assert_eq!(argmax_index, argmax_simd_index);
    assert_eq!(argmax_index, 1);
}

#[test]
fn lanes_agree_with_scan_for_all_types_lengths_and_tiers() {
    for (k, &n) in LENGTHS.iter().enumerate() {
        let seed = 100 + k as u64;
        let a = data_i32(n, seed);
        let b = data_i16(n, seed);
        let c = data_u16(n, seed);
        let e = data_u8(n, seed);
        for &t in TIERS.iter() {
            if n == 0 {
                assert_eq!(argmin_with(&a, t), None);
                assert_eq!(argmax_with(&e, t), None);
                continue;
            }
            assert_eq!(argmin_with(&a, t), Some(simple_argmin(&a)));
            assert_eq!(argmax_with(&a, t), Some(simple_argmax(&a)));
            assert_eq!(argmin_with(&b, t), Some(simple_argmin(&b)));
            assert_eq!(argmax_with(&b, t), Some(simple_argmax(&b)));
            assert_eq!(argmin_with(&c, t), Some(simple_argmin(&c)));
            assert_eq!(argmax_with(&c, t), Some(simple_argmax(&c)));
            assert_eq!(argmin_with(&e, t), Some(simple_argmin(&e)));
            assert_eq!(argmax_with(&e, t), Some(simple_argmax(&e)));
        }
    }
}

#[test]
fn result_is_first_position_of_true_extremum() {
    let data = data_u8(1000, 3);
    let i = argmin_u8(&data).unwrap();
    let lo = *data.iter().min().unwrap();
    assert_eq!(data[i], lo);
    assert!(data[..i].iter().all(|&v| v > lo));
    let j = argmax_u8(&data).unwrap();
    let hi = *data.iter().max().unwrap();
    assert_eq!(data[j], hi);
    assert!(data[..j].iter().all(|&v| v < hi));
}

#[test]
fn empty_input_gives_no_value() {
    let e32: [i32; 0] = [];
    let e16: [i16; 0] = [];
    let eu16: [u16; 0] = [];
    let e8: [u8; 0] = [];
    assert_eq!(argmin_i32(&e32), None);
    assert_eq!(argmax_i32(&e32), None);
    assert_eq!(argmin_i16(&e16), None);
    assert_eq!(argmax_i16(&e16), None);
    assert_eq!(argmin_u16(&eu16), None);
    assert_eq!(argmax_u16(&eu16), None);
    assert_eq!(argmin_u8(&e8), None);
    assert_eq!(argmax_u8(&e8), None);
    let v: Vec<i32> = Vec::new();
    assert_eq!(v.argmin(), None);
    assert_eq!(v.argmax(), None);
}

#[test]
fn single_element_gives_index_zero() {
    for x in [i32::MIN, -1, 0, 1, i32::MAX] {
        assert_eq!(argmin_i32(&[x]), Some(0));
        assert_eq!(argmax_i32(&[x]), Some(0));
    }
    for x in [u8::MIN, 7, u8::MAX] {
        assert_eq!(argmin_u8(&[x]), Some(0));
        assert_eq!(argmax_u8(&[x]), Some(0));
    }
}

#[test]
fn remainder_only_input_matches_scan() {
    let data = [5, -2, -2];
    assert_eq!(argmin_i32(&data), Some(simple_argmin(&data)));
    assert_eq!(argmin_i32(&data), Some(1));
    assert_eq!(argmax_i32(&data), Some(simple_argmax(&data)));
    assert_eq!(argmax_i32(&data), Some(0));
}

#[test]
fn repeated_calls_agree() {
    let data = data_i16(77, 11);
    assert_eq!(argmin_i16(&data), argmin_i16(&data));
    assert_eq!(argmax_i16(&data), argmax_i16(&data));
    assert_eq!(data.argmin(), data.argmin());
    assert_eq!(data.as_slice().argmax(), data.as_slice().argmax());
}

#[test]
fn tie_across_lanes_takes_leftmost() {
    // Length 8 with four lanes: no remainder, two chunks. The minimum sits
    // in lane 2 of the first chunk and lane 1 of the second.
    let data = [9, 9, 1, 9, 9, 1, 9, 9];
    assert_eq!(argmin_i32(&data), Some(2));
    // Reversed: the lane with the smaller lane number holds the later index.
    let data = [9, 9, 9, 1, 9, 9, 1, 9];
    assert_eq!(argmin_i32(&data), Some(3));
    let data = [0, 0, 5, 0, 0, 5, 0, 0];
    assert_eq!(argmax_i32(&data), Some(2));
}

#[test]
fn tie_within_one_lane_keeps_earlier_chunk() {
    let data = [3, 3, 3, 1, 3, 3, 3, 1, 3, 3, 3, 1];
    assert_eq!(argmin_i32(&data), Some(3));
}

#[test]
fn tie_between_remainder_and_body_goes_to_remainder() {
    // Length 5 with four lanes: remainder is the first element.
    let data = [1, 4, 1, 6, 8];
    assert_eq!(argmin_i32(&data), Some(0));
    let data = [8, 4, 1, 6, 8];
    assert_eq!(argmax_i32(&data), Some(0));
    // Strictly better body value wins.
    let data = [2, 4, 1, 6, 8];
    assert_eq!(argmin_i32(&data), Some(2));
    assert_eq!(argmax_i32(&data), Some(4));
}

#[test]
fn extreme_values_compare_correctly() {
    let data = [0i16, i16::MAX, i16::MIN, -1, 1, i16::MIN, i16::MAX, 2, 3];
    assert_eq!(argmin_i16(&data), Some(2));
    assert_eq!(argmax_i16(&data), Some(1));
    let data = [7u16, u16::MAX, 0, 9, 0, u16::MAX, 1, 1, 1];
    assert_eq!(argmin_u16(&data), Some(2));
    assert_eq!(argmax_u16(&data), Some(1));
    let mut data = vec![128u8; 40];
    data[17] = 0;
    data[33] = 0;
    data[20] = 255;
    data[39] = 255;
    assert_eq!(argmin_u8(&data), Some(17));
    assert_eq!(argmax_u8(&data), Some(20));
}

#[test]
fn exact_multiple_of_lane_width_has_no_remainder() {
    let data: Vec<u8> = (0..32u8).rev().collect();
    assert_eq!(argmin_u8(&data), Some(31));
    assert_eq!(argmax_u8(&data), Some(0));
    assert_eq!(argmin_with(&data, Tier::Lanes256), Some(31));
}

#[test]
fn trait_on_vec_and_slice() {
    let v = vec![4u16, 2, 8, 2, 8];
    assert_eq!(v.argmin(), Some(1));
    assert_eq!(v.argmax(), Some(2));
    let s: &[u16] = &v;
    assert_eq!(s.argmin(), Some(1));
    assert_eq!(s.argmax(), Some(2));
}
