//! Splitting a 64-bit value into sub-dimension components.
//!
//! A balance or output amount may be expanded into several smaller input
//! components before hashing: its bytes, its bits, its nibbles, or
//! prefix windows of growing width, optionally scaled by a position
//! weight.  Each split's contract states every component exactly as a
//! shift-and-mask expression over the source value.

use vstd::prelude::*;

verus! {

/// Masking keeps a value at or below the mask.
proof fn lemma_mask_bound(x: u64, m: u64)
    ensures
        x & m <= m,
{
    assert(x & m <= m) by (bit_vector);
}

/// Bounds of a single set bit.
proof fn lemma_one_shl_bounds(k: u64)
    ensures
        k < 64 ==> 1 <= (1u64 << k),
        k <= 32 ==> (1u64 << k) <= 0x1_0000_0000u64,
        k < 64 ==> (1u64 << k) <= 0x8000_0000_0000_0000u64,
{
    assert(k < 64 ==> 1 <= (1u64 << k)) by (bit_vector);
    assert(k <= 32 ==> (1u64 << k) <= 0x1_0000_0000u64) by (bit_vector);
    assert(k < 64 ==> (1u64 << k) <= 0x8000_0000_0000_0000u64) by (bit_vector);
}

/// The little-endian bytes of a value, lowest byte first.
pub fn split_u64_le(value: u64) -> (r: [u8; 8])
    ensures
        forall|i: int| 0 <= i < 8 ==> r@[i] == ((value >> (8 * i) as u64) & 0xff) as u8,
{
    let mut r: [u8; 8] = [0; 8];
    let mut i: usize = 0;
    while i < 8
        invariant
            0 <= i <= 8,
            forall|j: int| 0 <= j < i ==> r@[j] == ((value >> (8 * j) as u64) & 0xff) as u8,
        decreases 8 - i,
    {
        proof {
            lemma_mask_bound(value >> (8 * i as u64), 0xff);
        }
        r[i] = ((value >> (8 * i as u64)) & 0xff) as u8;
        i = i + 1;
    }
    r
}

/// Prefix windows of the value, most significant bits first, with widths
/// 1, 2, 4, 8, 16 and 33 bits.
pub fn split_u64_gradual(value: u64) -> (r: [u64; 6])
    ensures
        r@[0] == value >> 63,
        r@[1] == (value >> 61) & 0x3,
        r@[2] == (value >> 57) & 0xf,
        r@[3] == (value >> 49) & 0xff,
        r@[4] == (value >> 33) & 0xffff,
        r@[5] == value & 0x1_ffff_ffff,
{
    let mut r: [u64; 6] = [0; 6];
    r[0] = value >> 63;
    r[1] = (value >> 61) & 0x3;
    r[2] = (value >> 57) & 0xf;
    r[3] = (value >> 49) & 0xff;
    r[4] = (value >> 33) & 0xffff;
    r[5] = value & 0x1_ffff_ffff;
    r
}

/// The 64 prefix windows of the value, most significant bits first: window
/// `i` holds the top `i + 1` bits, and the last window is the whole value.
pub fn split_u64_into_64(value: u64) -> (r: [u64; 64])
    ensures
        forall|i: int|
            0 <= i < 63 ==> r@[i] == (value >> (63 - i) as u64) & (((1u64 << (i + 1) as u64)
                - 1) as u64),
        r@[63] == value,
{
    let mut r: [u64; 64] = [0; 64];
    let mut i: usize = 0;
    while i < 64
        invariant
            0 <= i <= 64,
            forall|j: int|
                0 <= j < i && j < 63 ==> r@[j] == (value >> (63 - j) as u64) & (((1u64 << (j
                    + 1) as u64) - 1) as u64),
            i > 63 ==> r@[63] == value,
        decreases 64 - i,
    {
        if i == 63 {
            r[i] = value;
        } else {
            proof {
                lemma_one_shl_bounds((i + 1) as u64);
            }
            r[i] = (value >> (63 - i) as u64) & ((1u64 << (i + 1) as u64) - 1);
        }
        i = i + 1;
    }
    r
}

/// The top `max_bits` bits of the value as single-bit components, most
/// significant first.
pub fn split_u64_with_max_bits(value: u64, max_bits: u32) -> (r: Vec<u8>)
    requires
        max_bits <= 64,
    ensures
        r@.len() == max_bits,
        forall|i: int|
            0 <= i < max_bits ==> r@[i] == ((value >> (max_bits - 1 - i) as u64) & 1) as u8,
{
    let mut r: Vec<u8> = Vec::new();
    let mut i: u32 = 0;
    while i < max_bits
        invariant
            0 <= i <= max_bits <= 64,
            r@.len() == i,
            forall|j: int|
                0 <= j < i ==> r@[j] == ((value >> (max_bits - 1 - j) as u64) & 1) as u8,
        decreases max_bits - i,
    {
        let shift = max_bits - (i + 1);
        proof {
            lemma_mask_bound(value >> shift as u64, 1);
        }
        r.push(((value >> shift as u64) & 1) as u8);
        i = i + 1;
    }
    r
}

/// Masked prefix windows of the value's `max_bits`-bit prefix, most
/// significant bits first: window `i` holds the top `i + 1` bits, and the
/// last window holds the whole prefix under a mask one bit wider than
/// `max_bits`.
pub fn split_u64_into_prefix_windows(value: u64, max_bits: u32) -> (r: Vec<u64>)
    requires
        max_bits <= 62,
    ensures
        r@.len() == max_bits,
        forall|i: int|
            0 <= i < max_bits - 1 ==> r@[i] == (value >> (max_bits - 1 - i) as u64) & (((1u64 << (i
                + 1) as u64) - 1) as u64),
        max_bits >= 1 ==> r@[max_bits - 1] == value & (((1u64 << (max_bits + 1) as u64)
            - 1) as u64),
{
    let mut r: Vec<u64> = Vec::new();
    let mut i: u32 = 0;
    while i < max_bits
        invariant
            0 <= i <= max_bits <= 62,
            r@.len() == i,
            forall|j: int|
                0 <= j < i && j < max_bits - 1 ==> r@[j] == (value >> (max_bits - 1
                    - j) as u64) & (((1u64 << (j + 1) as u64) - 1) as u64),
            i == max_bits && max_bits >= 1 ==> r@[max_bits - 1] == value & (((1u64 << (max_bits
                + 1) as u64) - 1) as u64),
        decreases max_bits - i,
    {
        let shift = max_bits - (i + 1);
        proof {
            lemma_one_shl_bounds((i + 1) as u64);
            lemma_one_shl_bounds((max_bits + 1) as u64);
        }
        if i == max_bits - 1 {
            proof {
                assert(value >> 0u64 == value) by (bit_vector);
            }
            r.push((value >> shift as u64) & ((1u64 << (max_bits + 1) as u64) - 1));
        } else {
            r.push((value >> shift as u64) & ((1u64 << (i + 1) as u64) - 1));
        }
        i = i + 1;
    }
    r
}

/// The nibbles of the value's `max_bits`-bit prefix window, most
/// significant nibble first, each scaled by the weight `2^(chunks - i)`
/// where `chunks` is the number of nibbles.
pub fn split_u64_into_pow2_weighted_nibbles(value: u64, max_bits: u32) -> (r: Vec<u64>)
    requires
        max_bits <= 64,
    ensures
        r@.len() == (max_bits + 3) / 4,
        forall|i: int|
            0 <= i < r@.len() ==> r@[i] == ((value >> (4 * ((max_bits + 3) / 4) - 4 * (i
                + 1)) as u64) & 0xf) * (1u64 << ((max_bits + 3) / 4 - i) as u64),
{
    let num_chunks = (max_bits + 3) / 4;
    let max_bits_rounded = num_chunks * 4;
    let mut r: Vec<u64> = Vec::new();
    let mut i: u32 = 0;
    while i < num_chunks
        invariant
            0 <= i <= num_chunks == ((max_bits + 3) / 4),
            max_bits_rounded == 4 * num_chunks,
            max_bits <= 64,
            r@.len() == i,
            forall|j: int|
                0 <= j < i ==> r@[j] == ((value >> (4 * ((max_bits + 3) / 4) - 4 * (j
                    + 1)) as u64) & 0xf) * (1u64 << ((max_bits + 3) / 4 - j) as u64),
        decreases num_chunks - i,
    {
        let shift = max_bits_rounded - (i + 1) * 4;
        let nibble = (value >> shift as u64) & 0xf;
        let weight = 1u64 << (num_chunks - i) as u64;
        proof {
            lemma_mask_bound(value >> shift as u64, 0xf);
            lemma_one_shl_bounds((num_chunks - i) as u64);
            vstd::arithmetic::mul::lemma_mul_upper_bound(
                nibble as int,
                0xf,
                weight as int,
                0x1_0000_0000,
            );
        }
        r.push(nibble * weight);
        i = i + 1;
    }
    r
}

/// The nibbles of the value, lowest nibble first, each scaled by its
/// position weight `i + 1 - cut_off_index`; positions below
/// `cut_off_index` are zeroed.
pub fn split_u64_into_weighted_nibbles(value: u64, max_bits: u32, cut_off_index: u32) -> (r: Vec<
    u64,
>)
    requires
        max_bits <= 64,
    ensures
        r@.len() == (max_bits + 3) / 4,
        forall|i: int| 0 <= i < r@.len() && i < cut_off_index ==> r@[i] == 0,
        forall|i: int|
            cut_off_index <= i < r@.len() ==> r@[i] == ((value >> (4 * i) as u64) & 0xf) * (i + 1
                - cut_off_index),
{
    let num_chunks = (max_bits + 3) / 4;
    let mut r: Vec<u64> = Vec::new();
    let mut i: u32 = 0;
    while i < num_chunks
        invariant
            0 <= i <= num_chunks == ((max_bits + 3) / 4),
            max_bits <= 64,
            r@.len() == i,
            forall|j: int| 0 <= j < i && j < cut_off_index ==> r@[j] == 0,
            forall|j: int|
                cut_off_index <= j < i ==> r@[j] == ((value >> (4 * j) as u64) & 0xf) * (j + 1
                    - cut_off_index),
        decreases num_chunks - i,
    {
        if i < cut_off_index {
            r.push(0);
        } else {
            let shift = 4 * i;
            let nibble = (value >> shift as u64) & 0xf;
            let weight = (i + 1 - cut_off_index) as u64;
            proof {
                lemma_mask_bound(value >> shift as u64, 0xf);
                vstd::arithmetic::mul::lemma_mul_upper_bound(
                    nibble as int,
                    0xf,
                    weight as int,
                    16,
                );
            }
            r.push(nibble * weight);
        }
        i = i + 1;
    }
    r
}

/// The nibbles of the value's `max_bits`-bit prefix window, most
/// significant nibble first; positions below `cut_off_index` are zeroed.
pub fn split_u64_into_nibbles(value: u64, max_bits: u32, cut_off_index: u32) -> (r: Vec<u64>)
    requires
        max_bits <= 64,
    ensures
        r@.len() == (max_bits + 3) / 4,
        forall|i: int| 0 <= i < r@.len() && i < cut_off_index ==> r@[i] == 0,
        forall|i: int|
            cut_off_index <= i < r@.len() ==> r@[i] == (value >> (4 * ((max_bits + 3) / 4) - 4 * (i
                + 1)) as u64) & 0xf,
{
    let num_chunks = (max_bits + 3) / 4;
    let max_bits_rounded = num_chunks * 4;
    let mut r: Vec<u64> = Vec::new();
    let mut i: u32 = 0;
    while i < num_chunks
        invariant
            0 <= i <= num_chunks == ((max_bits + 3) / 4),
            max_bits_rounded == 4 * num_chunks,
            max_bits <= 64,
            r@.len() == i,
            forall|j: int| 0 <= j < i && j < cut_off_index ==> r@[j] == 0,
            forall|j: int|
                cut_off_index <= j < i ==> r@[j] == (value >> (4 * ((max_bits + 3) / 4) - 4 * (j
                    + 1)) as u64) & 0xf,
        decreases num_chunks - i,
    {
        if i < cut_off_index {
            r.push(0);
        } else {
            let shift = max_bits_rounded - (i + 1) * 4;
            proof {
                lemma_mask_bound(value >> shift as u64, 0xf);
            }
            r.push((value >> shift as u64) & 0xf);
        }
        i = i + 1;
    }
    r
}

/// The bit pairs of the value's `max_bits`-bit prefix window, most
/// significant pair first, each scaled by the weight `2^(chunks - i)`
/// where `chunks` is the number of pairs.
pub fn split_u64_into_weighted_bit_pairs(value: u64, max_bits: u32) -> (r: Vec<u64>)
    requires
        max_bits <= 64,
    ensures
        r@.len() == (max_bits + 1) / 2,
        forall|i: int|
            0 <= i < r@.len() ==> r@[i] == ((value >> (2 * ((max_bits + 1) / 2) - 2 * (i
                + 1)) as u64) & 0x3) * (1u64 << ((max_bits + 1) / 2 - i) as u64),
{
    let num_chunks = (max_bits + 1) / 2;
    let max_bits_rounded = num_chunks * 2;
    let mut r: Vec<u64> = Vec::new();
    let mut i: u32 = 0;
    while i < num_chunks
        invariant
            0 <= i <= num_chunks == ((max_bits + 1) / 2),
            max_bits_rounded == 2 * num_chunks,
            max_bits <= 64,
            r@.len() == i,
            forall|j: int|
                0 <= j < i ==> r@[j] == ((value >> (2 * ((max_bits + 1) / 2) - 2 * (j
                    + 1)) as u64) & 0x3) * (1u64 << ((max_bits + 1) / 2 - j) as u64),
        decreases num_chunks - i,
    {
        let shift = max_bits_rounded - (i + 1) * 2;
        let pair = (value >> shift as u64) & 0x3;
        let weight = 1u64 << (num_chunks - i) as u64;
        proof {
            lemma_mask_bound(value >> shift as u64, 0x3);
            lemma_one_shl_bounds((num_chunks - i) as u64);
            vstd::arithmetic::mul::lemma_mul_upper_bound(
                pair as int,
                0x3,
                weight as int,
                0x1_0000_0000,
            );
        }
        r.push(pair * weight);
        i = i + 1;
    }
    r
}

/// Each bit of the value at its own binary weight: component `i` is
/// `bit_i * 2^i`, lowest bit first.
pub fn split_u64_into_weighted_bits(value: u64) -> (r: [u64; 64])
    ensures
        forall|i: int| 0 <= i < 64 ==> r@[i] == ((value >> i as u64) & 1) * (1u64 << i as u64),
{
    let mut r: [u64; 64] = [0; 64];
    let mut i: usize = 0;
    while i < 64
        invariant
            0 <= i <= 64,
            forall|j: int|
                0 <= j < i ==> r@[j] == ((value >> j as u64) & 1) * (1u64 << j as u64),
        decreases 64 - i,
    {
        let bit = (value >> i as u64) & 1;
        let weight = 1u64 << i as u64;
        proof {
            lemma_mask_bound(value >> i as u64, 1);
            lemma_one_shl_bounds(i as u64);
            vstd::arithmetic::mul::lemma_mul_upper_bound(
                bit as int,
                1,
                weight as int,
                0x8000_0000_0000_0000,
            );
        }
        r[i] = bit * weight;
        i = i + 1;
    }
    r
}

/// Number of bits needed to store the value; zero still needs one bit.
/// For a positive value `n` the result `r` satisfies `2^(r-1) <= n < 2^r`,
/// stated through shifts.
pub fn bits_needed(n: u64) -> (r: u32)
    ensures
        r == if n == 0 {
            1u32
        } else {
            (64 - vstd::std_specs::bits::u64_leading_zeros(n)) as u32
        },
        1 <= r <= 64,
        n > 0 ==> n >> (r as u64) == 0,
        n > 0 ==> (n >> (r - 1) as u64) & 1 == 1,
{
    proof {
        broadcast use vstd::std_specs::bits::axiom_u64_leading_zeros;

    }
    if n == 0 {
        1
    } else {
        let r = 64 - n.leading_zeros();
        proof {
            lemma_mask_bound(n >> (r - 1) as u64, 1);
        }
        r
    }
}

} // verus!
