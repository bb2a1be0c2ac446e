use swap_lsh::split::{
    bits_needed, split_u64_gradual, split_u64_into_64, split_u64_into_nibbles,
    split_u64_into_pow2_weighted_nibbles, split_u64_into_prefix_windows,
    split_u64_into_weighted_bit_pairs, split_u64_into_weighted_bits,
    split_u64_into_weighted_nibbles, split_u64_le, split_u64_with_max_bits,
};

#[test]
fn prefix_windows_grow_and_end_with_a_wider_mask() {
    assert_eq!(split_u64_into_prefix_windows(u64::MAX, 4), vec![1, 3, 7, 31]);
    assert_eq!(split_u64_into_prefix_windows(0, 3), vec![0, 0, 0]);
    assert_eq!(
        split_u64_into_prefix_windows(5, 0),
        Vec::<u64>::new()
    );
    // The single window of a one-bit split carries the low bits of the
    // value under a two-bit mask.
    assert_eq!(split_u64_into_prefix_windows(0b111, 1), vec![0b11]);
}

#[test]
fn pow2_weighted_nibbles_scale_by_halved_position() {
    assert_eq!(
        split_u64_into_pow2_weighted_nibbles(0xF0F, 12),
        vec![15 << 3, 0, 15 << 1]
    );
    let r = split_u64_into_pow2_weighted_nibbles(0xDEADBEEF, 32);
    assert_eq!(
        r,
        vec![
            0xd << 8,
            0xe << 7,
            0xa << 6,
            0xd << 5,
            0xb << 4,
            0xe << 3,
            0xe << 2,
            0xf << 1
        ]
    );
}

#[test]
fn le_bytes_match_byte_order() {
    assert_eq!(
        split_u64_le(0x0807060504030201),
        [1, 2, 3, 4, 5, 6, 7, 8]
    );
    assert_eq!(split_u64_le(0), [0; 8]);
    assert_eq!(split_u64_le(u64::MAX), [0xff; 8]);
}

#[test]
fn gradual_split_covers_all_windows() {
    assert_eq!(
        split_u64_gradual(u64::MAX),
        [1, 3, 0xf, 0xff, 0xffff, (1u64 << 33) - 1]
    );
    assert_eq!(split_u64_gradual(0), [0; 6]);
    // The top bit alone lands in the first window only.
    assert_eq!(split_u64_gradual(1 << 63), [1, 0, 0, 0, 0, 0]);
}

#[test]
fn prefix_windows_grow_to_the_full_value() {
    let r = split_u64_into_64(u64::MAX);
    assert_eq!(r[0], 1);
    assert_eq!(r[1], 3);
    assert_eq!(r[5], 63);
    assert_eq!(r[62], u64::MAX >> 1);
    assert_eq!(r[63], u64::MAX);
    let r = split_u64_into_64(1 << 63);
    assert_eq!(r[0], 1);
    assert_eq!(r[1], 2);
    assert_eq!(r[63], 1 << 63);
}

#[test]
fn bit_split_is_most_significant_first() {
    assert_eq!(split_u64_with_max_bits(0b1011, 4), vec![1, 0, 1, 1]);
    assert_eq!(split_u64_with_max_bits(0, 3), vec![0, 0, 0]);
    assert_eq!(split_u64_with_max_bits(u64::MAX, 64), vec![1; 64]);
    assert_eq!(split_u64_with_max_bits(5, 0), Vec::<u8>::new());
}

#[test]
fn weighted_nibbles_scale_by_position() {
    let r = split_u64_into_weighted_nibbles(0xDEADBEEF, 64, 0);
    assert_eq!(r.len(), 16);
    // Nibbles from the low end: F, E, E, B, D, A, E, D, then zeros;
    // weights 1, 2, 3, ...
    assert_eq!(
        &r[..8],
        &[15, 28, 42, 44, 65, 60, 98, 104]
    );
    assert_eq!(&r[8..], &[0; 8]);
}

#[test]
fn weighted_nibbles_respect_the_cutoff() {
    let r = split_u64_into_weighted_nibbles(0xDEADBEEF, 64, 2);
    assert_eq!(r[0], 0);
    assert_eq!(r[1], 0);
    // From the cutoff on, weights restart at one.
    assert_eq!(&r[2..8], &[14, 22, 39, 40, 70, 78]);
}

#[test]
fn plain_nibbles_are_most_significant_first() {
    assert_eq!(split_u64_into_nibbles(0xF0F, 12, 0), vec![0xf, 0, 0xf]);
    let r = split_u64_into_nibbles(0xDEADBEEF, 32, 0);
    assert_eq!(r, vec![0xd, 0xe, 0xa, 0xd, 0xb, 0xe, 0xe, 0xf]);
    assert_eq!(split_u64_into_nibbles(0xF0F, 12, 1), vec![0, 0, 0xf]);
}

#[test]
fn weighted_bit_pairs_scale_by_halved_position() {
    assert_eq!(split_u64_into_weighted_bit_pairs(0b1101, 4), vec![12, 2]);
    assert_eq!(
        split_u64_into_weighted_bit_pairs(0b111111, 6),
        vec![3 << 3, 3 << 2, 3 << 1]
    );
}

#[test]
fn weighted_bits_carry_binary_weights() {
    let r = split_u64_into_weighted_bits(0b101);
    assert_eq!(r[0], 1);
    assert_eq!(r[1], 0);
    assert_eq!(r[2], 4);
    assert_eq!(r[3], 0);
    let r = split_u64_into_weighted_bits(1 << 63);
    assert_eq!(r[63], 1 << 63);
    assert_eq!(r[0], 0);
}

#[test]
fn bits_needed_counts_significant_bits() {
    assert_eq!(bits_needed(0), 1);
    assert_eq!(bits_needed(1), 1);
    assert_eq!(bits_needed(2), 2);
    assert_eq!(bits_needed(3), 2);
    assert_eq!(bits_needed(255), 8);
    assert_eq!(bits_needed(256), 9);
    assert_eq!(bits_needed(u64::MAX), 64);
}
