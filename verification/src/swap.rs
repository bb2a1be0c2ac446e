//! Constant-product swap simulation and the hashes taken of its outcome.
//!
//! A pool holds balances `x` and `y` with invariant `k = x * y`.  Trading
//! `amount` into one side raises that balance and lowers the other to
//! `k / new_balance`; the difference is the output paid out.  The hash of
//! a swap outcome is taken over the vector `[new_x, new_y, output]` with 64
//! projections, salt zero; boundary hashes are taken over the weighted
//! nibbles of the output amount, shifted up and down by a slippage
//! fraction, with 128 projections.

use vstd::prelude::*;

use crate::assemble::{
    hash_vector, spec_lsh, spec_lsh_circuit_overflows, spec_lsh_native_overflows,
    spec_pack_msb64,
};
use crate::bitstring::BitString;
use crate::decode::DecodeMode;
use crate::errors::LshError;
use crate::split::split_u64_into_weighted_nibbles;

verus! {

/// New balances after trading `amount` of `x` into the pool:
/// `(x + amount, k / (x + amount))`.
pub open spec fn spec_trade_to_y(balance_x: u64, balance_y: u64, amount: u64) -> (int, int) {
    let k = (balance_x as int) * (balance_y as int);
    (balance_x + amount, k / (balance_x + amount))
}

/// New balances after trading `amount` of `y` into the pool:
/// `(k / (y + amount), y + amount)`.
pub open spec fn spec_trade_to_x(balance_x: u64, balance_y: u64, amount: u64) -> (int, int) {
    let k = (balance_x as int) * (balance_y as int);
    (k / (balance_y + amount), balance_y + amount)
}

/// The reduced balance after a trade never exceeds the balance it came
/// from: `(x * y) / d <= y` whenever `d` is at least `x` (and positive).
proof fn lemma_quotient_within_balance(balance_x: u64, balance_y: u64, d: int)
    requires
        d >= 1,
        d >= balance_x,
    ensures
        0 <= ((balance_x as int) * (balance_y as int)) / d <= balance_y,
{
    let k = (balance_x as int) * (balance_y as int);
    vstd::arithmetic::mul::lemma_mul_nonnegative(balance_x as int, balance_y as int);
    vstd::arithmetic::div_mod::lemma_div_pos_is_pos(k, d);
    if balance_x == 0 {
        assert(k == 0);
        vstd::arithmetic::div_mod::lemma_div_of0(d);
    } else {
        vstd::arithmetic::div_mod::lemma_div_is_ordered_by_denominator(k, balance_x as int, d);
        vstd::arithmetic::div_mod::lemma_div_multiples_vanish(
            balance_y as int,
            balance_x as int,
        );
        assert(k == (balance_x as int) * (balance_y as int));
    }
}

/// Simulate trading `input_amount` of `x` for `y`.  The caller keeps the
/// raised balance within the machine word and positive.
pub fn fake_trade_to_y(balance_x: u64, balance_y: u64, input_amount: u64) -> (r: (u64, u64))
    requires
        balance_x + input_amount <= u64::MAX,
        balance_x + input_amount >= 1,
    ensures
        (r.0 as int, r.1 as int) == spec_trade_to_y(balance_x, balance_y, input_amount),
        r.1 <= balance_y,
{
    proof {
        vstd::arithmetic::mul::lemma_mul_upper_bound(
            balance_x as int,
            u64::MAX as int,
            balance_y as int,
            u64::MAX as int,
        );
        lemma_quotient_within_balance(
            balance_x,
            balance_y,
            balance_x + input_amount,
        );
    }
    let k = (balance_x as u128) * (balance_y as u128);
    let new_balance_x = balance_x + input_amount;
    let new_balance_y = (k / (new_balance_x as u128)) as u64;
    (new_balance_x, new_balance_y)
}

/// Simulate trading `input_amount` of `y` for `x`.  The caller keeps the
/// raised balance within the machine word and positive.
pub fn fake_trade_to_x(balance_x: u64, balance_y: u64, input_amount: u64) -> (r: (u64, u64))
    requires
        balance_y + input_amount <= u64::MAX,
        balance_y + input_amount >= 1,
    ensures
        (r.0 as int, r.1 as int) == spec_trade_to_x(balance_x, balance_y, input_amount),
        r.0 <= balance_x,
{
    proof {
        vstd::arithmetic::mul::lemma_mul_upper_bound(
            balance_y as int,
            u64::MAX as int,
            balance_x as int,
            u64::MAX as int,
        );
        assert((balance_y as int) * (balance_x as int) == (balance_x as int)
            * (balance_y as int)) by (nonlinear_arith);
        lemma_quotient_within_balance(
            balance_y,
            balance_x,
            balance_y + input_amount,
        );
    }
    let k = (balance_x as u128) * (balance_y as u128);
    let new_balance_y = balance_y + input_amount;
    let new_balance_x = (k / (new_balance_y as u128)) as u64;
    (new_balance_x, new_balance_y)
}

/// Whether the swap arithmetic itself leaves the machine word: the raised
/// balance overflows `u64` or is zero (an empty pool with no input).
pub open spec fn spec_swap_overflow(
    is_swap_x_to_y: bool,
    balance_x: u64,
    balance_y: u64,
    input_amount: u64,
) -> bool {
    if is_swap_x_to_y {
        balance_x + input_amount > u64::MAX || balance_x + input_amount == 0
    } else {
        balance_y + input_amount > u64::MAX || balance_y + input_amount == 0
    }
}

/// The swap outcome `(new_x, new_y, output)` as exact integers.
pub open spec fn spec_swap_outcome(
    is_swap_x_to_y: bool,
    balance_x: u64,
    balance_y: u64,
    input_amount: u64,
) -> (int, int, int) {
    if is_swap_x_to_y {
        let (nx, ny) = spec_trade_to_y(balance_x, balance_y, input_amount);
        (nx, ny, balance_y - ny)
    } else {
        let (nx, ny) = spec_trade_to_x(balance_x, balance_y, input_amount);
        (nx, ny, balance_x - nx)
    }
}

/// The three-dimensional input vector hashed for a swap outcome.
pub open spec fn spec_swap_vector(
    is_swap_x_to_y: bool,
    balance_x: u64,
    balance_y: u64,
    input_amount: u64,
) -> Seq<u64> {
    let (nx, ny, output) = spec_swap_outcome(is_swap_x_to_y, balance_x, balance_y, input_amount);
    seq![nx as u64, ny as u64, output as u64]
}

/// The packed 64-bit hash of a swap outcome, salt zero.
pub open spec fn spec_swap_hash(
    is_swap_x_to_y: bool,
    balance_x: u64,
    balance_y: u64,
    input_amount: u64,
) -> u64 {
    spec_pack_msb64(
        spec_lsh(0, 64, spec_swap_vector(is_swap_x_to_y, balance_x, balance_y, input_amount)),
        64,
    )
}

/// Whether `get_hash` fails on these arguments: the swap arithmetic
/// leaves the machine word, or some projection sum over the outcome
/// vector leaves the chosen accumulator's width.
pub open spec fn spec_get_hash_fails(
    is_swap_x_to_y: bool,
    balance_x: u64,
    balance_y: u64,
    input_amount: u64,
    mode: DecodeMode,
) -> bool {
    spec_swap_overflow(is_swap_x_to_y, balance_x, balance_y, input_amount) || (mode
        == DecodeMode::Native && spec_lsh_native_overflows(
        0,
        64,
        spec_swap_vector(is_swap_x_to_y, balance_x, balance_y, input_amount),
        mode,
    )) || (mode == DecodeMode::CircuitFaithful && spec_lsh_circuit_overflows(
        0,
        64,
        spec_swap_vector(is_swap_x_to_y, balance_x, balance_y, input_amount),
        mode,
    ))
}

/// Simulate a swap and hash its outcome vector `[new_x, new_y, output]`
/// with 64 projections and salt zero under the given mode, returning the
/// packed hash and the output amount.
///
/// The call succeeds exactly when neither the swap arithmetic nor an
/// accumulator leaves its machine word (`spec_get_hash_fails`); every
/// failure is `Overflow`.
pub fn get_hash(
    is_swap_x_to_y: bool,
    balance_x: u64,
    balance_y: u64,
    input_amount: u64,
    mode: DecodeMode,
) -> (r: Result<(u64, u64), LshError>)
    ensures
        r is Ok <==> !spec_get_hash_fails(is_swap_x_to_y, balance_x, balance_y, input_amount, mode),
        r is Err ==> r->Err_0 == LshError::Overflow,
        r is Ok ==> r->Ok_0.0 == spec_swap_hash(is_swap_x_to_y, balance_x, balance_y, input_amount),
        r is Ok ==> r->Ok_0.1 == spec_swap_outcome(
            is_swap_x_to_y,
            balance_x,
            balance_y,
            input_amount,
        ).2,
{
    let new_balance_x: u64;
    let new_balance_y: u64;
    let output: u64;
    if is_swap_x_to_y {
        if input_amount > u64::MAX - balance_x || balance_x + input_amount == 0 {
            return Err(LshError::Overflow);
        }
        let (nx, ny) = fake_trade_to_y(balance_x, balance_y, input_amount);
        new_balance_x = nx;
        new_balance_y = ny;
        output = balance_y - ny;
    } else {
        if input_amount > u64::MAX - balance_y || balance_y + input_amount == 0 {
            return Err(LshError::Overflow);
        }
        let (nx, ny) = fake_trade_to_x(balance_x, balance_y, input_amount);
        new_balance_x = nx;
        new_balance_y = ny;
        output = balance_x - nx;
    }
    let v: Vec<u64> = vec![new_balance_x, new_balance_y, output];
    proof {
        assert(v@ =~= spec_swap_vector(is_swap_x_to_y, balance_x, balance_y, input_amount));
    }
    let bits = match hash_vector(0, 64, mode, &v) {
        Ok(bits) => bits,
        Err(e) => {
            return Err(e);
        },
    };
    Ok((crate::assemble::pack_msb64(&bits), output))
}

/// The slippage share of an output amount, in basis points of `10000`.
pub open spec fn spec_slippage_delta(output: int, slippage: u64) -> int {
    (output * slippage) / 10000
}

/// The 16 weighted nibbles of an output amount, the vector hashed for a
/// slippage boundary.
pub open spec fn spec_weighted_nibble_vector(value: u64) -> Seq<u64> {
    Seq::new(16, |i: int| ((((value >> (4 * i) as u64) & 0xf) as int) * (i + 1)) as u64)
}

/// Weighted nibble vectors are small: 16 components of at most `15 * 16`.
proof fn lemma_weighted_nibble_vector_small(value: u64)
    ensures
        spec_weighted_nibble_vector(value).len() == 16,
        forall|j: int| 0 <= j < 16 ==> #[trigger] spec_weighted_nibble_vector(value)[j] <= 240,
{
    assert forall|j: int| 0 <= j < 16 implies #[trigger] spec_weighted_nibble_vector(value)[j]
        <= 240 by {
        let s = (4 * j) as u64;
        assert((value >> s) & 0xf <= 0xf) by (bit_vector);
        vstd::arithmetic::mul::lemma_mul_upper_bound(((value >> s) & 0xf) as int, 15, j + 1, 16);
    };
}

/// Simulate a swap and hash the two slippage boundaries around its output:
/// the output shifted up and down by `output * slippage / 10000`, each
/// split into its 16 weighted nibbles and hashed with 128 projections,
/// salt zero.  Returns the two boundary hashes (upper first), the two
/// shifted outputs, and the unshifted output.
///
/// The call fails — always as `Overflow` — exactly when arithmetic leaves
/// the machine word: the swap itself, the slippage share exceeding the
/// output, or the upper boundary exceeding `u64`.  The accumulators never
/// overflow here: running sums stay small over weighted nibbles.
pub fn get_boundary_hashes(
    is_swap_x_to_y: bool,
    balance_x: u64,
    balance_y: u64,
    input_amount: u64,
    slippage: u64,
    mode: DecodeMode,
) -> (r: Result<(BitString, BitString, u64, u64, u64), LshError>)
    ensures
        r is Ok ==> ({
            let output = spec_swap_outcome(is_swap_x_to_y, balance_x, balance_y, input_amount).2;
            let delta = spec_slippage_delta(output, slippage);
            &&& !spec_swap_overflow(is_swap_x_to_y, balance_x, balance_y, input_amount)
            &&& 0 <= delta <= output
            &&& output + delta <= u64::MAX
            &&& r->Ok_0.2 == output + delta
            &&& r->Ok_0.3 == output - delta
            &&& r->Ok_0.4 == output
            &&& r->Ok_0.0@ == spec_lsh(0, 128, spec_weighted_nibble_vector((output + delta) as u64))
            &&& r->Ok_0.1@ == spec_lsh(0, 128, spec_weighted_nibble_vector((output - delta) as u64))
        }),
        r is Err ==> r->Err_0 == LshError::Overflow,
        r is Err <==> ({
            let output = spec_swap_outcome(is_swap_x_to_y, balance_x, balance_y, input_amount).2;
            let delta = spec_slippage_delta(output, slippage);
            spec_swap_overflow(is_swap_x_to_y, balance_x, balance_y, input_amount) || delta > output
                || output + delta > u64::MAX
        }),
{
    let output: u64;
    if is_swap_x_to_y {
        if input_amount > u64::MAX - balance_x || balance_x + input_amount == 0 {
            return Err(LshError::Overflow);
        }
        let (_, ny) = fake_trade_to_y(balance_x, balance_y, input_amount);
        output = balance_y - ny;
    } else {
        if input_amount > u64::MAX - balance_y || balance_y + input_amount == 0 {
            return Err(LshError::Overflow);
        }
        let (nx, _) = fake_trade_to_x(balance_x, balance_y, input_amount);
        output = balance_x - nx;
    }
    proof {
        vstd::arithmetic::mul::lemma_mul_upper_bound(
            output as int,
            u64::MAX as int,
            slippage as int,
            u64::MAX as int,
        );
        vstd::arithmetic::mul::lemma_mul_nonnegative(output as int, slippage as int);
        vstd::arithmetic::div_mod::lemma_div_pos_is_pos((output as int) * (slippage as int), 10000);
    }
    let delta_wide: u128 = ((output as u128) * (slippage as u128)) / 10000;
    if delta_wide > output as u128 {
        return Err(LshError::Overflow);
    }
    let delta: u64 = delta_wide as u64;
    if delta > u64::MAX - output {
        return Err(LshError::Overflow);
    }
    let upper_output = output + delta;
    let lower_output = output - delta;
    let upper_parts = split_u64_into_weighted_nibbles(upper_output, 64, 0);
    let lower_parts = split_u64_into_weighted_nibbles(lower_output, 64, 0);
    proof {
        assert(upper_parts@ =~= spec_weighted_nibble_vector(upper_output));
        assert(lower_parts@ =~= spec_weighted_nibble_vector(lower_output));
    }
    proof {
        lemma_weighted_nibble_vector_small(upper_output);
        lemma_weighted_nibble_vector_small(lower_output);
        crate::assemble::lemma_bounded_inputs_never_overflow(0, 128, upper_parts@, mode, 240);
        crate::assemble::lemma_bounded_inputs_never_overflow(0, 128, lower_parts@, mode, 240);
    }
    let upper_hash = match hash_vector(0, 128, mode, &upper_parts) {
        Ok(bits) => bits,
        Err(e) => {
            // Unreachable: the accumulators cannot overflow on weighted
            // nibbles, and hashing fails on no other ground.
            return Err(e);
        },
    };
    let lower_hash = match hash_vector(0, 128, mode, &lower_parts) {
        Ok(bits) => bits,
        Err(e) => {
            return Err(e);
        },
    };
    Ok((upper_hash, lower_hash, upper_output, lower_output, output))
}

} // verus!
