//! Deterministic pseudorandom projection words, keyed by a Poseidon hash.
//!
//! A projection word is derived from the triple `(salt, projection_index,
//! dimension_index)`.  Each of the three 64-bit values is handed to the
//! Poseidon permutation as its own field element, encoded as a 32-byte
//! little-endian block whose low 8 bytes carry the value; the first 8 bytes
//! of the digest, read little-endian, are the word.

use vstd::prelude::*;

use crate::errors::LshError;

verus! {

/// The outside error type reported by the Poseidon primitive.
#[verifier::external_type_specification]
#[verifier::external_body]
pub struct ExPoseidonSyscallError(solana_poseidon::PoseidonSyscallError);

/// The 64-bit word formed by the first 8 bytes, read little-endian, of the
/// Poseidon digest of `(salt, proj, dim)`.  The digest is a function of the
/// input bytes alone, so the word is named rather than spelled out.
pub uninterp spec fn poseidon_word(salt: u64, proj: u64, dim: u64) -> u64;

/// Relies on solana_poseidon::hashv (Poseidon over the BN254 scalar field,
/// little-endian): the digest depends only on the input bytes, so the word
/// taken from it is a pure function of `(salt, proj, dim)`.  Each value is
/// passed as one 32-byte little-endian field element with the high 24 bytes
/// zero, and on that shape of call every error branch is unreachable —
/// width-4 parameters exist, each block is exactly the modulus length, each
/// value lies far below the modulus, and the input count matches the width —
/// so the call returns `Ok`.
#[verifier::external_body]
fn poseidon_first_word(salt: u64, proj: u64, dim: u64) -> (r: Result<
    u64,
    solana_poseidon::PoseidonSyscallError,
>)
    ensures
        r is Ok,
        r->Ok_0 == poseidon_word(salt, proj, dim),
{
    let mut blocks = [[0u8; 32]; 3];
    blocks[0][..8].copy_from_slice(&salt.to_le_bytes());
    blocks[1][..8].copy_from_slice(&proj.to_le_bytes());
    blocks[2][..8].copy_from_slice(&dim.to_le_bytes());
    let refs: [&[u8]; 3] = [&blocks[0], &blocks[1], &blocks[2]];
    let parameters = solana_poseidon::Parameters::Bn254X5;
    let endianness = solana_poseidon::Endianness::LittleEndian;
    let digest = solana_poseidon::hashv(parameters, endianness, &refs)?;
    let mut word = [0u8; 8];
    word.copy_from_slice(&digest.to_bytes()[..8]);
    Ok(u64::from_le_bytes(word))
}

/// Derive the raw projection word for one `(salt, projection, dimension)`
/// triple.  The derivation always succeeds; a primitive failure, which the
/// primitive's source rules out for this shape of call, would surface as
/// the fatal `HashComputation`.
pub fn derive_projection(salt: u64, proj: u64, dim: u64) -> (r: Result<u64, LshError>)
    ensures
        r is Ok,
        r->Ok_0 == poseidon_word(salt, proj, dim),
{
    match poseidon_first_word(salt, proj, dim) {
        Ok(word) => Ok(word),
        Err(_) => Err(LshError::HashComputation),
    }
}

} // verus!
