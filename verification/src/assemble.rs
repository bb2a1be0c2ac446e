//! Assembling a locality-sensitive hash from per-projection signs.
//!
//! For each projection index `i` below the configured bit count, and for
//! each dimension index `j` below the input vector's length, a projection
//! word is derived from `(salt, i, j)`, decoded, and paired with the
//! input's component `j`; the terms of one projection are folded left to
//! right by the sign-tracked accumulator, and the sign becomes bit `i` of
//! the hash.  The result is pinned to a spec-level model of the whole
//! pipeline, so for a fixed `(salt, bit_count, mode)` configuration the
//! hash of a vector is the same on every call.

use vstd::prelude::*;

use crate::accum::{
    accumulate_sign, spec_circuit_overflows, spec_mixed_mode, spec_native_overflows,
    spec_prefix_sum,
};
use crate::bitstring::BitString;
use crate::decode::{decode, spec_raw_magnitude, spec_raw_negative, spec_raw_value, DecodeMode,
    SignedProjection};
use crate::errors::LshError;
use crate::prf::{derive_projection, poseidon_word};

verus! {

/// The decoded terms of one projection index over an input vector.
pub open spec fn spec_terms(salt: u64, proj: u64, v: Seq<u64>, mode: DecodeMode) -> Seq<
    (u64, SignedProjection),
> {
    Seq::new(
        v.len(),
        |j: int|
            (
                v[j],
                SignedProjection {
                    magnitude: spec_raw_magnitude(poseidon_word(salt, proj, j as u64)) as u64,
                    negative: spec_raw_negative(poseidon_word(salt, proj, j as u64)),
                    mode,
                },
            ),
    )
}

/// Exact sum, over the first `d` dimensions, of the input components times
/// their decoded projection values.
pub open spec fn spec_bit_sum(salt: u64, proj: u64, v: Seq<u64>, d: int) -> int
    decreases d,
{
    if d <= 0 {
        0
    } else {
        spec_bit_sum(salt, proj, v, d - 1) + (v[d - 1] as int) * spec_raw_value(
            poseidon_word(salt, proj, (d - 1) as u64),
        )
    }
}

/// Bit `proj` of the hash of `v`: whether the projection sum is negative.
pub open spec fn spec_lsh_bit(salt: u64, proj: u64, v: Seq<u64>) -> bool {
    spec_bit_sum(salt, proj, v, v.len() as int) < 0
}

/// The full hash: one sign bit per projection index below `bit_count`.
pub open spec fn spec_lsh(salt: u64, bit_count: int, v: Seq<u64>) -> Seq<bool> {
    Seq::new(bit_count as nat, |i: int| spec_lsh_bit(salt, i as u64, v))
}

/// The hash of any vector has exactly `bit_count` bits, under every
/// configuration.
pub proof fn lemma_lsh_length(salt: u64, bit_count: u64, v: Seq<u64>)
    ensures
        spec_lsh(salt, bit_count as int, v).len() == bit_count,
{
}

/// The term sequence of one projection sums to the projection's bit sum.
proof fn lemma_terms_sum(salt: u64, proj: u64, v: Seq<u64>, mode: DecodeMode, d: int)
    requires
        0 <= d <= v.len(),
    ensures
        spec_prefix_sum(spec_terms(salt, proj, v, mode), d) == spec_bit_sum(salt, proj, v, d),
    decreases d,
{
    if d > 0 {
        lemma_terms_sum(salt, proj, v, mode, d - 1);
        let w = poseidon_word(salt, proj, (d - 1) as u64);
        assert((v[d - 1] as int) * (-spec_raw_magnitude(w)) == -((v[d - 1] as int)
            * spec_raw_magnitude(w))) by (nonlinear_arith);
    }
}

/// Whether some projection of the hash overflows the native accumulator.
pub open spec fn spec_lsh_native_overflows(
    salt: u64,
    bit_count: int,
    v: Seq<u64>,
    mode: DecodeMode,
) -> bool {
    exists|i: int|
        0 <= i < bit_count && spec_native_overflows(#[trigger] spec_terms(salt, i as u64, v, mode))
}

/// Whether some projection of the hash overflows the circuit-faithful
/// accumulator.
pub open spec fn spec_lsh_circuit_overflows(
    salt: u64,
    bit_count: int,
    v: Seq<u64>,
    mode: DecodeMode,
) -> bool {
    exists|i: int|
        0 <= i < bit_count && spec_circuit_overflows(#[trigger] spec_terms(salt, i as u64, v, mode))
}

/// A vector of small components never overflows either accumulator: with
/// every component at most `input_bound` and every decoded magnitude at
/// most the half-point, all running sums stay inside the wide integer
/// types, under every projection index.
pub proof fn lemma_bounded_inputs_never_overflow(
    salt: u64,
    bit_count: int,
    v: Seq<u64>,
    mode: DecodeMode,
    input_bound: int,
)
    requires
        input_bound >= 0,
        forall|j: int| 0 <= j < v.len() ==> v[j] <= input_bound,
        v.len() * (input_bound * (crate::decode::FIELD_HALF as int)) <= i128::MAX,
    ensures
        !spec_lsh_native_overflows(salt, bit_count, v, mode),
        !spec_lsh_circuit_overflows(salt, bit_count, v, mode),
{
    let half = crate::decode::FIELD_HALF as int;
    let big = input_bound * half;
    assert forall|i: int| 0 <= i < bit_count implies !spec_native_overflows(
        #[trigger] spec_terms(salt, i as u64, v, mode),
    ) && !spec_circuit_overflows(spec_terms(salt, i as u64, v, mode)) by {
        let t = spec_terms(salt, i as u64, v, mode);
        assert forall|k: int| 0 <= k < t.len() implies (#[trigger] t[k]).0 <= input_bound
            && t[k].1.magnitude <= half by {
            crate::decode::lemma_magnitude_bounded(poseidon_word(salt, i as u64, k as u64));
        };
        vstd::arithmetic::mul::lemma_mul_nonnegative(input_bound, half);
        assert forall|k: int| 0 <= k < t.len() implies crate::accum::spec_native_term_fits(
            (#[trigger] t[k]).0,
            t[k].1,
        ) by {
            vstd::arithmetic::mul::lemma_mul_nonnegative(t[k].0 as int, t[k].1.magnitude as int);
            vstd::arithmetic::mul::lemma_mul_upper_bound(
                t[k].0 as int,
                input_bound,
                t[k].1.magnitude as int,
                half,
            );
            vstd::arithmetic::mul::lemma_mul_inequality(1, t.len() as int, big);
            assert(1 * big == big) by (nonlinear_arith);
        };
        assert forall|n: int| 1 <= n <= t.len() implies i128::MIN <= #[trigger] spec_prefix_sum(
            t,
            n,
        ) <= i128::MAX by {
            crate::accum::lemma_prefix_sum_bound(t, n, input_bound, half);
            vstd::arithmetic::mul::lemma_mul_inequality(n, t.len() as int, big);
        };
        assert forall|n: int| 1 <= n <= t.len() implies (#[trigger] crate::accum::spec_circuit_fold(
            t,
            n,
        )).0 <= u128::MAX by {
            crate::accum::lemma_fold_is_sum(t, n);
            crate::accum::lemma_prefix_sum_bound(t, n, input_bound, half);
            vstd::arithmetic::mul::lemma_mul_inequality(n, t.len() as int, big);
        };
    };
}

/// Compute the hash of an input vector: `bit_count` sign bits, bit `i`
/// taken from projection index `i`, dimensions folded in the vector's given
/// order.
///
/// The result is a pure function of `(salt, bit_count, input)`: both decode
/// modes yield the same bits, and repeated calls yield the same hash.  The
/// call fails — always as `Overflow` — exactly when some projection's sum
/// leaves the chosen accumulator's wide integer type.
pub fn hash_vector(salt: u64, bit_count: u64, mode: DecodeMode, input: &Vec<u64>) -> (r: Result<
    BitString,
    LshError,
>)
    ensures
        r is Ok ==> r->Ok_0@ == spec_lsh(salt, bit_count as int, input@),
        r is Ok ==> r->Ok_0@.len() == bit_count,
        r is Err ==> r->Err_0 == LshError::Overflow,
        r is Err <==> (mode == DecodeMode::Native && spec_lsh_native_overflows(
            salt,
            bit_count as int,
            input@,
            mode,
        )) || (mode == DecodeMode::CircuitFaithful && spec_lsh_circuit_overflows(
            salt,
            bit_count as int,
            input@,
            mode,
        )),
{
    let ghost v = input@;
    let mut out = BitString::new();
    let mut i: u64 = 0;
    while i < bit_count
        invariant
            0 <= i <= bit_count,
            input@ == v,
            out@.len() == i,
            forall|ii: int| 0 <= ii < i ==> out@[ii] == spec_lsh_bit(salt, ii as u64, v),
            mode == DecodeMode::Native ==> forall|ii: int|
                0 <= ii < i ==> !spec_native_overflows(#[trigger] spec_terms(salt, ii as u64, v, mode)),
            mode == DecodeMode::CircuitFaithful ==> forall|ii: int|
                0 <= ii < i ==> !spec_circuit_overflows(
                    #[trigger] spec_terms(salt, ii as u64, v, mode),
                ),
        decreases bit_count - i,
    {
        let d = input.len();
        let mut terms: Vec<(u64, SignedProjection)> = Vec::new();
        let mut j: usize = 0;
        while j < d
            invariant
                0 <= j <= d == v.len(),
                input@ == v,
                terms@.len() == j,
                forall|jj: int|
                    0 <= jj < j ==> #[trigger] terms@[jj] == spec_terms(salt, i, v, mode)[jj],
            decreases d - j,
        {
            let raw = match derive_projection(salt, i, j as u64) {
                Ok(raw) => raw,
                Err(e) => {
                    return Err(e);
                },
            };
            let p = decode(raw, mode);
            terms.push((input[j], p));
            j = j + 1;
        }
        proof {
            assert(terms@ =~= spec_terms(salt, i, v, mode));
            assert(!spec_mixed_mode(terms@, mode));
            lemma_terms_sum(salt, i, v, mode, v.len() as int);
        }
        let negative = match accumulate_sign(&terms, mode) {
            Ok(b) => b,
            Err(e) => {
                proof {
                    assert(e == LshError::Overflow);
                    if mode == DecodeMode::Native {
                        assert(spec_native_overflows(spec_terms(salt, (i as int) as u64, v, mode)));
                        assert(spec_lsh_native_overflows(salt, bit_count as int, v, mode));
                    } else {
                        assert(spec_circuit_overflows(
                            spec_terms(salt, (i as int) as u64, v, mode),
                        ));
                        assert(spec_lsh_circuit_overflows(salt, bit_count as int, v, mode));
                    }
                }
                return Err(e);
            },
        };
        out.push(negative);
        i = i + 1;
    }
    proof {
        assert(out@ =~= spec_lsh(salt, bit_count as int, v));
    }
    Ok(out)
}

/// Pack the first `n` bits of a sequence into a 64-bit word, bit `i` of
/// the sequence at binary weight `2^(63-i)`.
pub open spec fn spec_pack_msb64(bits: Seq<bool>, n: int) -> u64
    decreases n,
{
    if n <= 0 {
        0
    } else if 64 < n {
        spec_pack_msb64(bits, 64)
    } else if bits[n - 1] {
        spec_pack_msb64(bits, n - 1) | (1u64 << ((64 - n) as u64))
    } else {
        spec_pack_msb64(bits, n - 1)
    }
}

/// The 64-bit hash of a three-dimensional input vector under native
/// arithmetic, packed most significant bit first, with salt fixed to zero.
/// The call fails — always as `Overflow` — exactly when some projection's
/// sum leaves the signed 128-bit accumulator.
pub fn generate_lsh_rust(input: &[u64; 3]) -> (r: Result<u64, LshError>)
    ensures
        r is Ok ==> r->Ok_0 == spec_pack_msb64(spec_lsh(0, 64, input@), 64),
        r is Err ==> r->Err_0 == LshError::Overflow,
        r is Err <==> spec_lsh_native_overflows(0, 64, input@, DecodeMode::Native),
{
    let v: Vec<u64> = vec![input[0], input[1], input[2]];
    proof {
        assert(v@ =~= input@);
    }
    let bits = match hash_vector(0, 64, DecodeMode::Native, &v) {
        Ok(bits) => bits,
        Err(e) => {
            return Err(e);
        },
    };
    Ok(pack_msb64(&bits))
}

/// The 64-bit hash of a three-dimensional input vector under
/// circuit-faithful arithmetic, packed most significant bit first, with
/// salt fixed to zero.  On success it equals `generate_lsh_rust` of the
/// same vector: the two arithmetic paths agree on every sign.  The call
/// fails — always as `Overflow` — exactly when some projection's sum
/// leaves the unsigned 128-bit magnitude.
pub fn generate_lsh_circuit(input: &[u64; 3]) -> (r: Result<u64, LshError>)
    ensures
        r is Ok ==> r->Ok_0 == spec_pack_msb64(spec_lsh(0, 64, input@), 64),
        r is Err ==> r->Err_0 == LshError::Overflow,
        r is Err <==> spec_lsh_circuit_overflows(0, 64, input@, DecodeMode::CircuitFaithful),
{
    let v: Vec<u64> = vec![input[0], input[1], input[2]];
    proof {
        assert(v@ =~= input@);
    }
    let bits = match hash_vector(0, 64, DecodeMode::CircuitFaithful, &v) {
        Ok(bits) => bits,
        Err(e) => {
            return Err(e);
        },
    };
    Ok(pack_msb64(&bits))
}

/// Bit `k` of a sequence packed most significant bit first sits at word
/// position `63 - k`; positions not yet packed are zero.
proof fn lemma_pack_msb64_bit(bits: Seq<bool>, n: int, k: int)
    requires
        0 <= n <= 64,
        0 <= k < 64,
        bits.len() >= n,
    ensures
        k < n ==> (spec_pack_msb64(bits, n) >> (63 - k) as u64) & 1 == (if bits[k] {
            1u64
        } else {
            0u64
        }),
        k >= n ==> (spec_pack_msb64(bits, n) >> (63 - k) as u64) & 1 == 0,
    decreases n,
{
    if n == 0 {
        let s2 = (63 - k) as u64;
        assert((0u64 >> s2) & 1 == 0) by (bit_vector);
    } else {
        lemma_pack_msb64_bit(bits, n - 1, k);
        let prev = spec_pack_msb64(bits, n - 1);
        let s1 = (64 - n) as u64;
        let s2 = (63 - k) as u64;
        assert(s1 < 64 && s2 < 64 ==> ((prev | (1u64 << s1)) >> s2) & 1 == (if s1 == s2 {
            1u64
        } else {
            (prev >> s2) & 1
        })) by (bit_vector);
    }
}

/// Packing preserves distance: two 64-bit hashes packed most significant
/// bit first differ in exactly as many word positions as the bit strings
/// they pack.
pub proof fn lemma_pack_msb64_preserves_distance(a: Seq<bool>, b: Seq<bool>)
    requires
        a.len() == 64,
        b.len() == 64,
    ensures
        crate::bitstring::spec_hamming_u64(spec_pack_msb64(a, 64), spec_pack_msb64(b, 64), 64)
            == crate::bitstring::spec_hamming_bits(a, b, 64),
{
    lemma_pack_distance_suffix(a, b, 64);
}

/// The low `n` word positions of the packed forms hold the last `n` bits
/// of the sequences, so their differences count the differences of that
/// suffix.
proof fn lemma_pack_distance_suffix(a: Seq<bool>, b: Seq<bool>, n: int)
    requires
        a.len() == 64,
        b.len() == 64,
        0 <= n <= 64,
    ensures
        crate::bitstring::spec_hamming_u64(spec_pack_msb64(a, 64), spec_pack_msb64(b, 64), n)
            == crate::bitstring::spec_hamming_bits(a, b, 64) - crate::bitstring::spec_hamming_bits(
            a,
            b,
            64 - n,
        ),
    decreases n,
{
    if n > 0 {
        lemma_pack_distance_suffix(a, b, n - 1);
        lemma_pack_msb64_bit(a, 64, 64 - n);
        lemma_pack_msb64_bit(b, 64, 64 - n);
        lemma_hamming_bits_step(a, b, 64 - n);
    }
}

/// One step of the positional difference count.
proof fn lemma_hamming_bits_step(a: Seq<bool>, b: Seq<bool>, k: int)
    requires
        0 <= k,
    ensures
        crate::bitstring::spec_hamming_bits(a, b, k + 1) == crate::bitstring::spec_hamming_bits(
            a,
            b,
            k,
        ) + if a[k] != b[k] {
            1int
        } else {
            0int
        },
{
}

/// Pack a 64-bit hash, bit 0 of the bit string at the most significant
/// position.
pub fn pack_msb64(bits: &BitString) -> (r: u64)
    requires
        bits@.len() == 64,
    ensures
        r == spec_pack_msb64(bits@, 64),
{
    let mut hash_res: u64 = 0;
    let mut i: u64 = 0;
    while i < 64
        invariant
            0 <= i <= 64,
            bits@.len() == 64,
            hash_res == spec_pack_msb64(bits@, i as int),
        decreases 64 - i,
    {
        if bits.bit_at(i as usize) {
            hash_res = hash_res | (1u64 << (63 - i));
        }
        i = i + 1;
    }
    hash_res
}

} // verus!
