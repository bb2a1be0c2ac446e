use solana_poseidon::{hashv, Endianness, Parameters};
use swap_lsh::assemble::hash_vector;
use swap_lsh::decode::DecodeMode;

/// The projection word as the library defines it: the first 8 bytes,
/// little-endian, of the Poseidon digest of three 32-byte little-endian
/// field elements carrying `salt`, `proj` and `dim`.
fn reference_word(salt: u64, proj: u64, dim: u64) -> u64 {
    let mut blocks = [[0u8; 32]; 3];
    blocks[0][..8].copy_from_slice(&salt.to_le_bytes());
    blocks[1][..8].copy_from_slice(&proj.to_le_bytes());
    blocks[2][..8].copy_from_slice(&dim.to_le_bytes());
    let digest = hashv(
        Parameters::Bn254X5,
        Endianness::LittleEndian,
        &[&blocks[0], &blocks[1], &blocks[2]],
    )
    .unwrap();
    let mut word = [0u8; 8];
    word.copy_from_slice(&digest.to_bytes()[..8]);
    u64::from_le_bytes(word)
}

/// Recompute one hash bit directly from the primitive and compare it with
/// the library's pipeline.  This fails if the trusted wrapper returned
/// anything but the digest word of its three inputs.
#[test]
fn first_hash_bit_matches_direct_poseidon_computation() {
    let input: Vec<u64> = vec![1_000_100, 1_999_800, 200];
    let salt = 0u64;
    let mut sum: i128 = 0;
    for (dim, &component) in input.iter().enumerate() {
        let word = reference_word(salt, 0, dim as u64);
        let signed = word as i64;
        sum += component as i128 * signed as i128;
    }
    let expected_bit = sum < 0;
    let bits = hash_vector(salt, 1, DecodeMode::Native, &input).unwrap();
    assert_eq!(bits.len(), 1);
    assert_eq!(bits.bit_at(0), expected_bit);
}

#[test]
fn hash_bits_depend_on_the_dimension_index() {
    // Words for distinct dimension indices differ, so a wrapper ignoring
    // an argument would be caught.
    let w0 = reference_word(0, 0, 0);
    let w1 = reference_word(0, 0, 1);
    let w2 = reference_word(0, 1, 0);
    let w3 = reference_word(1, 0, 0);
    assert_ne!(w0, w1);
    assert_ne!(w0, w2);
    assert_ne!(w0, w3);
}

#[test]
fn hash_vector_is_deterministic_and_sized() {
    let input: Vec<u64> = vec![42, 7, 9000];
    let a = hash_vector(3, 32, DecodeMode::Native, &input).unwrap();
    let b = hash_vector(3, 32, DecodeMode::Native, &input).unwrap();
    assert_eq!(a.len(), 32);
    assert_eq!(a.to_bits(), b.to_bits());
    // A different salt gives an independent hash family.
    let c = hash_vector(4, 32, DecodeMode::Native, &input).unwrap();
    assert_ne!(a.to_bits(), c.to_bits());
}
