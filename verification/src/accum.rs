//! Sign-tracked accumulation of input/projection products.
//!
//! One output bit of the hash is the sign of `sum_i input_i * projection_i`.
//! The sum is computed without native signed overflow in one of two ways.
//! In `Native` mode the products are folded into a signed 128-bit
//! accumulator.  In `CircuitFaithful` mode every product is an unsigned
//! magnitude carrying the projection's sign flag, and the running total is
//! folded with explicit sign-aware addition: magnitudes of agreeing signs
//! add, for disagreeing signs the smaller magnitude is subtracted from the
//! larger (plain unsigned subtraction, never a signed one) and the sign of
//! the larger operand is kept, and a tie yields zero with non-negative
//! sign.  Both modes report the same sign for every term sequence; the
//! public lemma `lemma_modes_agree` states that agreement.

use vstd::prelude::*;

use crate::decode::{DecodeMode, SignedProjection};
use crate::errors::LshError;

verus! {

/// The signed value one term contributes: the product of the non-negative
/// input and the projection's magnitude, negated when the projection is
/// negative.
pub open spec fn spec_term_value(input: u64, p: SignedProjection) -> int {
    if p.negative {
        -((input as int) * (p.magnitude as int))
    } else {
        (input as int) * (p.magnitude as int)
    }
}

/// Exact sum of the first `n` term values.
pub open spec fn spec_prefix_sum(terms: Seq<(u64, SignedProjection)>, n: int) -> int
    decreases n,
{
    if n <= 0 {
        0
    } else {
        spec_prefix_sum(terms, n - 1) + spec_term_value(terms[n - 1].0, terms[n - 1].1)
    }
}

/// Exact sum of all term values.
pub open spec fn spec_sum(terms: Seq<(u64, SignedProjection)>) -> int {
    spec_prefix_sum(terms, terms.len() as int)
}

/// Whether some term was decoded under a mode other than `mode`.
pub open spec fn spec_mixed_mode(terms: Seq<(u64, SignedProjection)>, mode: DecodeMode) -> bool {
    exists|k: int| 0 <= k < terms.len() && terms[k].1.mode != mode
}

/// Whether one term's signed value is representable as an `i128`.
pub open spec fn spec_native_term_fits(input: u64, p: SignedProjection) -> bool {
    i128::MIN <= spec_term_value(input, p) <= i128::MAX
}

/// Whether the native signed 128-bit accumulation runs out of range: some
/// term value or some running sum does not fit an `i128`.
pub open spec fn spec_native_overflows(terms: Seq<(u64, SignedProjection)>) -> bool {
    (exists|k: int| 0 <= k < terms.len() && !spec_native_term_fits(terms[k].0, terms[k].1))
        || (exists|n: int|
        1 <= n <= terms.len() && !(i128::MIN <= #[trigger] spec_prefix_sum(terms, n)
            <= i128::MAX))
}

/// One step of the sign-aware fold: magnitudes of agreeing signs add;
/// for disagreeing signs the smaller magnitude leaves the larger, which
/// keeps its sign; a tie yields zero with non-negative sign.
pub open spec fn spec_fold_step(acc: (int, bool), term: (int, bool)) -> (int, bool) {
    if acc.1 == term.1 {
        (acc.0 + term.0, acc.1)
    } else if acc.0 > term.0 {
        (acc.0 - term.0, acc.1)
    } else if acc.0 < term.0 {
        (term.0 - acc.0, term.1)
    } else {
        (0, false)
    }
}

/// The sign-aware fold over the first `n` terms, as exact mathematics:
/// a magnitude and a sign flag.
pub open spec fn spec_circuit_fold(terms: Seq<(u64, SignedProjection)>, n: int) -> (int, bool)
    decreases n,
{
    if n <= 0 {
        (0, false)
    } else {
        spec_fold_step(
            spec_circuit_fold(terms, n - 1),
            ((terms[n - 1].0 as int) * (terms[n - 1].1.magnitude as int), terms[n - 1].1.negative),
        )
    }
}

/// The signed value a magnitude/sign pair stands for.
pub open spec fn spec_rep(v: (int, bool)) -> int {
    if v.1 {
        -v.0
    } else {
        v.0
    }
}

/// Whether the circuit-faithful fold runs out of range: some running
/// magnitude, which equals the absolute value of the running sum, does not
/// fit a `u128`.
pub open spec fn spec_circuit_overflows(terms: Seq<(u64, SignedProjection)>) -> bool {
    exists|n: int| 1 <= n <= terms.len() && spec_circuit_fold(terms, n).0 > u128::MAX
}

/// The sign-aware fold computes exactly the running sum: its magnitude is
/// the sum's absolute value, its flag is the sum's sign, and a zero
/// magnitude always carries the non-negative flag.
pub proof fn lemma_fold_is_sum(terms: Seq<(u64, SignedProjection)>, n: int)
    requires
        0 <= n <= terms.len(),
    ensures
        spec_circuit_fold(terms, n).0 >= 0,
        spec_circuit_fold(terms, n).0 == 0 ==> !spec_circuit_fold(terms, n).1,
        spec_rep(spec_circuit_fold(terms, n)) == spec_prefix_sum(terms, n),
    decreases n,
{
    if n > 0 {
        lemma_fold_is_sum(terms, n - 1);
        vstd::arithmetic::mul::lemma_mul_nonnegative(
            terms[n - 1].0 as int,
            terms[n - 1].1.magnitude as int,
        );
    }
}

/// A running sum of bounded terms is bounded: with every input at most
/// `input_bound` and every magnitude at most `mag_bound`, the sum of the
/// first `n` terms stays within `n * input_bound * mag_bound` of zero.
pub proof fn lemma_prefix_sum_bound(
    terms: Seq<(u64, SignedProjection)>,
    n: int,
    input_bound: int,
    mag_bound: int,
)
    requires
        0 <= n <= terms.len(),
        input_bound >= 0,
        mag_bound >= 0,
        forall|k: int|
            0 <= k < terms.len() ==> (#[trigger] terms[k]).0 <= input_bound
                && terms[k].1.magnitude <= mag_bound,
    ensures
        -(n * (input_bound * mag_bound)) <= spec_prefix_sum(terms, n) <= n * (input_bound
            * mag_bound),
    decreases n,
{
    if n > 0 {
        lemma_prefix_sum_bound(terms, n - 1, input_bound, mag_bound);
        vstd::arithmetic::mul::lemma_mul_nonnegative(
            terms[n - 1].0 as int,
            terms[n - 1].1.magnitude as int,
        );
        vstd::arithmetic::mul::lemma_mul_upper_bound(
            terms[n - 1].0 as int,
            input_bound,
            terms[n - 1].1.magnitude as int,
            mag_bound,
        );
        assert(n * (input_bound * mag_bound) == (n - 1) * (input_bound * mag_bound) + input_bound
            * mag_bound) by (nonlinear_arith);
    }
}

/// The two accumulation modes agree: the sign flag the circuit-faithful
/// fold ends with equals the strict negativity of the exact sum that the
/// native mode reports, for every sequence of terms.
pub proof fn lemma_modes_agree(terms: Seq<(u64, SignedProjection)>)
    ensures
        spec_circuit_fold(terms, terms.len() as int).1 == (spec_sum(terms) < 0),
{
    lemma_fold_is_sum(terms, terms.len() as int);
}

/// Report whether `sum_i input_i * projection_i` is negative, folding the
/// terms left to right under the given mode.
///
/// Fails with `ModeMismatch` exactly when some projection was decoded under
/// another mode, and with `Overflow` exactly when the mode's wide integer
/// type cannot hold an intermediate value.
pub fn accumulate_sign(terms: &Vec<(u64, SignedProjection)>, mode: DecodeMode) -> (r: Result<
    bool,
    LshError,
>)
    ensures
        r is Ok ==> r->Ok_0 == (spec_sum(terms@) < 0),
        r == Err::<bool, LshError>(LshError::ModeMismatch) <==> spec_mixed_mode(terms@, mode),
        !spec_mixed_mode(terms@, mode) && mode == DecodeMode::Native ==> (r == Err::<
            bool,
            LshError,
        >(LshError::Overflow) <==> spec_native_overflows(terms@)),
        !spec_mixed_mode(terms@, mode) && mode == DecodeMode::CircuitFaithful ==> (r == Err::<
            bool,
            LshError,
        >(LshError::Overflow) <==> spec_circuit_overflows(terms@)),
        r is Err ==> (r->Err_0 == LshError::ModeMismatch || r->Err_0 == LshError::Overflow),
{
    let ghost t = terms@;
    let n = terms.len();
    let mut k: usize = 0;
    while k < n
        invariant
            0 <= k <= n == t.len(),
            terms@ == t,
            forall|j: int| 0 <= j < k ==> t[j].1.mode == mode,
        decreases n - k,
    {
        if terms[k].1.mode != mode {
            assert(spec_mixed_mode(t, mode));
            return Err(LshError::ModeMismatch);
        }
        k = k + 1;
    }
    assert(!spec_mixed_mode(t, mode));
    match mode {
        DecodeMode::Native => accumulate_sign_native(terms),
        DecodeMode::CircuitFaithful => accumulate_sign_circuit(terms),
    }
}

/// Native path: fold the signed products into an `i128` accumulator,
/// failing fast instead of wrapping.
fn accumulate_sign_native(terms: &Vec<(u64, SignedProjection)>) -> (r: Result<bool, LshError>)
    ensures
        r is Ok ==> r->Ok_0 == (spec_sum(terms@) < 0),
        r is Err ==> r->Err_0 == LshError::Overflow,
        r is Err <==> spec_native_overflows(terms@),
{
    let ghost t = terms@;
    let n = terms.len();
    let mut acc: i128 = 0;
    let mut k: usize = 0;
    while k < n
        invariant
            0 <= k <= n == t.len(),
            terms@ == t,
            acc as int == spec_prefix_sum(t, k as int),
            forall|j: int| 0 <= j < k ==> spec_native_term_fits(t[j].0, t[j].1),
            forall|n2: int|
                1 <= n2 <= k ==> i128::MIN <= #[trigger] spec_prefix_sum(t, n2) <= i128::MAX,
        decreases n - k,
    {
        let input = terms[k].0;
        let p = terms[k].1;
        proof {
            vstd::arithmetic::mul::lemma_mul_nonnegative(input as int, p.magnitude as int);
            vstd::arithmetic::mul::lemma_mul_upper_bound(
                input as int,
                u64::MAX as int,
                p.magnitude as int,
                u64::MAX as int,
            );
        }
        let prod: u128 = (input as u128) * (p.magnitude as u128);
        let signed_prod: i128 = if p.negative {
            if prod > 0x8000_0000_0000_0000_0000_0000_0000_0000u128 {
                assert(!spec_native_term_fits(t[k as int].0, t[k as int].1));
                assert(spec_native_overflows(t));
                return Err(LshError::Overflow);
            } else if prod == 0x8000_0000_0000_0000_0000_0000_0000_0000u128 {
                i128::MIN
            } else {
                -(prod as i128)
            }
        } else {
            if prod > i128::MAX as u128 {
                assert(!spec_native_term_fits(t[k as int].0, t[k as int].1));
                assert(spec_native_overflows(t));
                return Err(LshError::Overflow);
            }
            prod as i128
        };
        assert(signed_prod as int == spec_term_value(t[k as int].0, t[k as int].1));
        match acc.checked_add(signed_prod) {
            Some(next) => {
                acc = next;
            },
            None => {
                assert(!(i128::MIN <= spec_prefix_sum(t, k + 1) <= i128::MAX));
                assert(spec_native_overflows(t));
                return Err(LshError::Overflow);
            },
        }
        k = k + 1;
    }
    assert(!spec_native_overflows(t));
    Ok(acc < 0)
}

/// Circuit-faithful path: fold unsigned magnitude products with the
/// explicit sign rule, failing fast instead of wrapping.
fn accumulate_sign_circuit(terms: &Vec<(u64, SignedProjection)>) -> (r: Result<bool, LshError>)
    ensures
        r is Ok ==> r->Ok_0 == (spec_sum(terms@) < 0),
        r is Err ==> r->Err_0 == LshError::Overflow,
        r is Err <==> spec_circuit_overflows(terms@),
{
    let ghost t = terms@;
    let n = terms.len();
    let mut mag: u128 = 0;
    let mut neg: bool = false;
    let mut k: usize = 0;
    while k < n
        invariant
            0 <= k <= n == t.len(),
            terms@ == t,
            mag as int == spec_circuit_fold(t, k as int).0,
            neg == spec_circuit_fold(t, k as int).1,
            forall|n2: int| 1 <= n2 <= k ==> spec_circuit_fold(t, n2).0 <= u128::MAX,
        decreases n - k,
    {
        let input = terms[k].0;
        let p = terms[k].1;
        proof {
            vstd::arithmetic::mul::lemma_mul_nonnegative(input as int, p.magnitude as int);
            vstd::arithmetic::mul::lemma_mul_upper_bound(
                input as int,
                u64::MAX as int,
                p.magnitude as int,
                u64::MAX as int,
            );
        }
        let prod: u128 = (input as u128) * (p.magnitude as u128);
        if neg == p.negative {
            match mag.checked_add(prod) {
                Some(next) => {
                    mag = next;
                },
                None => {
                    assert(spec_circuit_fold(t, k + 1).0 > u128::MAX);
                    assert(spec_circuit_overflows(t));
                    return Err(LshError::Overflow);
                },
            }
        } else if mag > prod {
            mag = mag - prod;
        } else if mag < prod {
            mag = prod - mag;
            neg = p.negative;
        } else {
            mag = 0;
            neg = false;
        }
        k = k + 1;
    }
    assert(!spec_circuit_overflows(t));
    proof {
        lemma_modes_agree(t);
    }
    Ok(neg)
}

} // verus!
