//! Bisection search for the smallest diverging front-run amount.
//!
//! Starting from a base pool state and a base hash, the search probes
//! front-run trade amounts inside a bracket `[0, 2 * reserve]`, classifies
//! each probe by whether the hash of the state it leads to differs from
//! the base hash, and shrinks the bracket on the side of the probe until
//! the next candidate would fall on an existing endpoint.  The caller is
//! responsible for a bracket that straddles a divergence: the low end is
//! conventionally `0` and taken as non-diverging without a probe, and a
//! bracket exhausted without ever observing a diverging probe is reported
//! as `DivergentBracket` rather than answered.  The whole walk is a pure
//! function of the arguments, and the result is pinned to its spec model
//! `spec_search_result`.

use vstd::prelude::*;

use crate::bitstring::{hamming_distance, spec_hamming_u64};
use crate::decode::DecodeMode;
use crate::errors::LshError;
use crate::swap::{
    fake_trade_to_x, fake_trade_to_y, get_hash, spec_get_hash_fails, spec_swap_hash,
    spec_trade_to_x, spec_trade_to_y,
};

verus! {

/// Whether the front-run trade of `amount` fits the machine word.  A
/// favorable front-run trades into `y` (raising `balance_y`), an adverse
/// one into `x`.
pub open spec fn spec_probe_ok(
    base_reserve_x: u64,
    base_reserve_y: u64,
    is_in_favor: bool,
    amount: u64,
) -> bool {
    if is_in_favor {
        1 <= base_reserve_y + amount <= u64::MAX
    } else {
        1 <= base_reserve_x + amount <= u64::MAX
    }
}

/// The pool reserves after the front-run trade of `amount`.
pub open spec fn spec_probe_reserves(
    base_reserve_x: u64,
    base_reserve_y: u64,
    is_in_favor: bool,
    amount: u64,
) -> (int, int) {
    if is_in_favor {
        spec_trade_to_x(base_reserve_x, base_reserve_y, amount)
    } else {
        spec_trade_to_y(base_reserve_x, base_reserve_y, amount)
    }
}

/// Whether the probe at `amount` diverges: the hash of the swap outcome
/// on the post-front-run reserves differs from the base hash.
pub open spec fn spec_diverges(
    base_hash: u64,
    base_reserve_x: u64,
    base_reserve_y: u64,
    input_amount: u64,
    is_swap_x_to_y: bool,
    is_in_favor: bool,
    amount: u64,
) -> bool {
    let (rx, ry) = spec_probe_reserves(base_reserve_x, base_reserve_y, is_in_favor, amount);
    spec_hamming_u64(
        base_hash,
        spec_swap_hash(is_swap_x_to_y, rx as u64, ry as u64, input_amount),
        64,
    ) != 0
}

/// One bracket state of the walk: the non-diverging floor, the probe
/// candidate, the ceiling, and the last diverging probe's reserves once
/// one was seen.
#[derive(Clone, Copy, Debug, PartialEq, Eq, Structural)]
pub struct SearchState {
    /// Largest amount known (or, at zero, assumed) not to diverge.
    pub low: u64,
    /// The next amount to probe.
    pub front: u64,
    /// Smallest amount known (or, before any diverging probe, assumed) to
    /// diverge.
    pub high: u64,
    /// Whether `high` was itself probed.
    pub high_probed: bool,
    /// First reserve after the front-run of `high`, once it was probed.
    pub high_rx: u64,
    /// Second reserve after the front-run of `high`, once it was probed.
    pub high_ry: u64,
}

/// The walk from a bracket state to the search's result.  Probe the
/// candidate; a machine-word violation along the probe stops the walk
/// with `Overflow`; otherwise the bracket shrinks on the probe's side,
/// and when the next candidate falls on an existing endpoint the walk
/// returns the boundary found — the probe itself in the diverging case,
/// the probed ceiling otherwise — or `DivergentBracket` when no probe
/// ever diverged.
pub open spec fn spec_search_result(
    base_hash: u64,
    base_reserve_x: u64,
    base_reserve_y: u64,
    input_amount: u64,
    is_swap_x_to_y: bool,
    is_in_favor: bool,
    mode: DecodeMode,
    st: SearchState,
) -> Result<(u64, u64, u64), LshError>
    decreases st.high - st.low,
{
    if !(st.low < st.front < st.high) {
        Err(LshError::DivergentBracket)
    } else if !spec_probe_ok(base_reserve_x, base_reserve_y, is_in_favor, st.front) {
        Err(LshError::Overflow)
    } else {
        let prx = spec_probe_reserves(
            base_reserve_x,
            base_reserve_y,
            is_in_favor,
            st.front,
        ).0 as u64;
        let pry = spec_probe_reserves(
            base_reserve_x,
            base_reserve_y,
            is_in_favor,
            st.front,
        ).1 as u64;
        if spec_get_hash_fails(is_swap_x_to_y, prx, pry, input_amount, mode) {
            Err(LshError::Overflow)
        } else if spec_diverges(
            base_hash,
            base_reserve_x,
            base_reserve_y,
            input_amount,
            is_swap_x_to_y,
            is_in_favor,
            st.front,
        ) {
            let next = (st.low + (st.front - st.low) / 2) as u64;
            if next == st.front || next == st.low {
                Ok((prx, pry, st.front))
            } else {
                spec_search_result(
                    base_hash,
                    base_reserve_x,
                    base_reserve_y,
                    input_amount,
                    is_swap_x_to_y,
                    is_in_favor,
                    mode,
                    SearchState {
                        low: st.low,
                        front: next,
                        high: st.front,
                        high_probed: true,
                        high_rx: prx,
                        high_ry: pry,
                    },
                )
            }
        } else {
            let next = (st.front + (st.high - st.front) / 2) as u64;
            if next == st.high || next == st.front {
                if st.high_probed {
                    Ok((st.high_rx, st.high_ry, st.high))
                } else {
                    Err(LshError::DivergentBracket)
                }
            } else {
                spec_search_result(
                    base_hash,
                    base_reserve_x,
                    base_reserve_y,
                    input_amount,
                    is_swap_x_to_y,
                    is_in_favor,
                    mode,
                    SearchState {
                        low: st.front,
                        front: next,
                        high: st.high,
                        high_probed: st.high_probed,
                        high_rx: st.high_rx,
                        high_ry: st.high_ry,
                    },
                )
            }
        }
    }
}

/// Each probe after the first sits at the midpoint of the bracket, so
/// whichever side the bracket shrinks to, the new width is at most half
/// the old width rounded up: the bracket `[0, n]` collapses within a
/// number of probes logarithmic in `n`.
pub proof fn lemma_bisection_step_halves(low: u64, front: u64, high: u64)
    requires
        low < front < high,
        front == low + (high - low) / 2,
    ensures
        front - low <= (high - low + 1) / 2,
        high - front <= (high - low + 1) / 2,
{
}

/// Bisect for the smallest front-run amount whose hash diverges from the
/// base hash.
///
/// The result is pinned to the walk `spec_search_result` on the initial
/// bracket `[0, 2 * reserve]` with the first candidate at `1`: success,
/// `Overflow` and `DivergentBracket` are each a function of the arguments
/// alone.  On success the returned amount lies inside the bracket and
/// diverges while its predecessor does not (the conventional low end `0`
/// counts as non-diverging without a probe), and the returned reserves
/// are the pool state after that front-run trade.  Every probe after the
/// first is the bracket's midpoint, so the bracket halves per probe
/// (`lemma_bisection_step_halves`) and the search stops after
/// logarithmically many.
pub fn binary_search_first_hamming_diff(
    base_hash: u64,
    base_reserve_x: u64,
    base_reserve_y: u64,
    input_amount: u64,
    is_swap_x_to_y: bool,
    is_in_favor: bool,
    mode: DecodeMode,
) -> (r: Result<(u64, u64, u64), LshError>)
    ensures
        r is Ok ==> ({
            let (rx, ry, amt) = r->Ok_0;
            &&& amt >= 1
            &&& amt <= 2 * (if is_in_favor {
                base_reserve_y as int
            } else {
                base_reserve_x as int
            })
            &&& spec_probe_ok(base_reserve_x, base_reserve_y, is_in_favor, amt)
            &&& (rx as int, ry as int) == spec_probe_reserves(
                base_reserve_x,
                base_reserve_y,
                is_in_favor,
                amt,
            )
            &&& spec_diverges(
                base_hash,
                base_reserve_x,
                base_reserve_y,
                input_amount,
                is_swap_x_to_y,
                is_in_favor,
                amt,
            )
            &&& (amt == 1 || !spec_diverges(
                base_hash,
                base_reserve_x,
                base_reserve_y,
                input_amount,
                is_swap_x_to_y,
                is_in_favor,
                (amt - 1) as u64,
            ))
        }),
        r is Err ==> (r->Err_0 == LshError::Overflow || r->Err_0 == LshError::DivergentBracket),
        ({
            let bracket_base = if is_in_favor {
                base_reserve_y
            } else {
                base_reserve_x
            };
            &&& (bracket_base > u64::MAX / 2 ==> r == Err::<(u64, u64, u64), LshError>(
                LshError::Overflow,
            ))
            &&& (bracket_base == 0 ==> r == Err::<(u64, u64, u64), LshError>(
                LshError::DivergentBracket,
            ))
            &&& (1 <= bracket_base <= u64::MAX / 2 ==> r == spec_search_result(
                base_hash,
                base_reserve_x,
                base_reserve_y,
                input_amount,
                is_swap_x_to_y,
                is_in_favor,
                mode,
                (SearchState {
                    low: 0,
                    front: 1,
                    high: (2 * bracket_base) as u64,
                    high_probed: false,
                    high_rx: 0,
                    high_ry: 0,
                }),
            ))
        }),
{
    let bracket_base = if is_in_favor {
        base_reserve_y
    } else {
        base_reserve_x
    };
    if bracket_base > u64::MAX / 2 {
        return Err(LshError::Overflow);
    }
    let high_init = bracket_base * 2;
    if high_init < 2 {
        return Err(LshError::DivergentBracket);
    }
    let mut low: u64 = 0;
    let mut front: u64 = 1;
    let mut high: u64 = high_init;
    let mut high_probed: bool = false;
    let mut high_rx: u64 = 0;
    let mut high_ry: u64 = 0;
    loop
        invariant
            low < front < high <= high_init,
            high_init == 2 * (if is_in_favor {
                base_reserve_y as int
            } else {
                base_reserve_x as int
            }),
            front == low + (high - low) / 2 || front == 1,
            low == 0 || !spec_diverges(
                base_hash,
                base_reserve_x,
                base_reserve_y,
                input_amount,
                is_swap_x_to_y,
                is_in_favor,
                low,
            ),
            high_probed ==> ({
                &&& spec_probe_ok(base_reserve_x, base_reserve_y, is_in_favor, high)
                &&& (high_rx as int, high_ry as int) == spec_probe_reserves(
                    base_reserve_x,
                    base_reserve_y,
                    is_in_favor,
                    high,
                )
                &&& spec_diverges(
                    base_hash,
                    base_reserve_x,
                    base_reserve_y,
                    input_amount,
                    is_swap_x_to_y,
                    is_in_favor,
                    high,
                )
            }),
            spec_search_result(
                base_hash,
                base_reserve_x,
                base_reserve_y,
                input_amount,
                is_swap_x_to_y,
                is_in_favor,
                mode,
                (SearchState { low, front, high, high_probed, high_rx, high_ry }),
            ) == spec_search_result(
                base_hash,
                base_reserve_x,
                base_reserve_y,
                input_amount,
                is_swap_x_to_y,
                is_in_favor,
                mode,
                (SearchState {
                    low: 0,
                    front: 1,
                    high: high_init,
                    high_probed: false,
                    high_rx: 0,
                    high_ry: 0,
                }),
            ),
        decreases high - low,
    {
        let ghost cur_st = SearchState { low, front, high, high_probed, high_rx, high_ry };
        let post_rx: u64;
        let post_ry: u64;
        if is_in_favor {
            if front > u64::MAX - base_reserve_y {
                proof {
                    assert(!spec_probe_ok(base_reserve_x, base_reserve_y, is_in_favor, front));
                    assert(spec_search_result(
                        base_hash,
                        base_reserve_x,
                        base_reserve_y,
                        input_amount,
                        is_swap_x_to_y,
                        is_in_favor,
                        mode,
                        cur_st,
                    ) == Err::<(u64, u64, u64), LshError>(LshError::Overflow));
                }
                return Err(LshError::Overflow);
            }
            let (rx, ry) = fake_trade_to_x(base_reserve_x, base_reserve_y, front);
            post_rx = rx;
            post_ry = ry;
        } else {
            if front > u64::MAX - base_reserve_x {
                proof {
                    assert(!spec_probe_ok(base_reserve_x, base_reserve_y, is_in_favor, front));
                    assert(spec_search_result(
                        base_hash,
                        base_reserve_x,
                        base_reserve_y,
                        input_amount,
                        is_swap_x_to_y,
                        is_in_favor,
                        mode,
                        cur_st,
                    ) == Err::<(u64, u64, u64), LshError>(LshError::Overflow));
                }
                return Err(LshError::Overflow);
            }
            let (rx, ry) = fake_trade_to_y(base_reserve_x, base_reserve_y, front);
            post_rx = rx;
            post_ry = ry;
        }
        proof {
            assert(post_rx == spec_probe_reserves(
                base_reserve_x,
                base_reserve_y,
                is_in_favor,
                front,
            ).0 as u64);
            assert(post_ry == spec_probe_reserves(
                base_reserve_x,
                base_reserve_y,
                is_in_favor,
                front,
            ).1 as u64);
        }
        let probe_hash = match get_hash(is_swap_x_to_y, post_rx, post_ry, input_amount, mode) {
            Ok((h, _)) => h,
            Err(e) => {
                proof {
                    assert(spec_probe_ok(base_reserve_x, base_reserve_y, is_in_favor, front));
                    assert(spec_get_hash_fails(
                        is_swap_x_to_y,
                        post_rx,
                        post_ry,
                        input_amount,
                        mode,
                    ));
                    assert(spec_search_result(
                        base_hash,
                        base_reserve_x,
                        base_reserve_y,
                        input_amount,
                        is_swap_x_to_y,
                        is_in_favor,
                        mode,
                        cur_st,
                    ) == Err::<(u64, u64, u64), LshError>(LshError::Overflow));
                }
                return Err(e);
            },
        };
        let dist = hamming_distance(base_hash, probe_hash);
        proof {
            assert(spec_probe_ok(base_reserve_x, base_reserve_y, is_in_favor, front));
            assert(!spec_get_hash_fails(is_swap_x_to_y, post_rx, post_ry, input_amount, mode));
            assert((dist != 0) == spec_diverges(
                base_hash,
                base_reserve_x,
                base_reserve_y,
                input_amount,
                is_swap_x_to_y,
                is_in_favor,
                front,
            ));
        }
        if dist != 0 {
            let next = low + (front - low) / 2;
            if next == front || next == low {
                proof {
                    assert(spec_search_result(
                        base_hash,
                        base_reserve_x,
                        base_reserve_y,
                        input_amount,
                        is_swap_x_to_y,
                        is_in_favor,
                        mode,
                        cur_st,
                    ) == Ok::<(u64, u64, u64), LshError>((post_rx, post_ry, front)));
                }
                return Ok((post_rx, post_ry, front));
            }
            high = front;
            high_probed = true;
            high_rx = post_rx;
            high_ry = post_ry;
            front = next;
            proof {
                assert(spec_search_result(
                    base_hash,
                    base_reserve_x,
                    base_reserve_y,
                    input_amount,
                    is_swap_x_to_y,
                    is_in_favor,
                    mode,
                    cur_st,
                ) == spec_search_result(
                    base_hash,
                    base_reserve_x,
                    base_reserve_y,
                    input_amount,
                    is_swap_x_to_y,
                    is_in_favor,
                    mode,
                    (SearchState { low, front, high, high_probed, high_rx, high_ry }),
                ));
            }
        } else {
            let next = front + (high - front) / 2;
            if next == high || next == front {
                proof {
                    if high_probed {
                        assert(spec_search_result(
                            base_hash,
                            base_reserve_x,
                            base_reserve_y,
                            input_amount,
                            is_swap_x_to_y,
                            is_in_favor,
                            mode,
                            cur_st,
                        ) == Ok::<(u64, u64, u64), LshError>((high_rx, high_ry, high)));
                    } else {
                        assert(spec_search_result(
                            base_hash,
                            base_reserve_x,
                            base_reserve_y,
                            input_amount,
                            is_swap_x_to_y,
                            is_in_favor,
                            mode,
                            cur_st,
                        ) == Err::<(u64, u64, u64), LshError>(LshError::DivergentBracket));
                    }
                }
                if high_probed {
                    return Ok((high_rx, high_ry, high));
                }
                return Err(LshError::DivergentBracket);
            }
            low = front;
            front = next;
            proof {
                assert(spec_search_result(
                    base_hash,
                    base_reserve_x,
                    base_reserve_y,
                    input_amount,
                    is_swap_x_to_y,
                    is_in_favor,
                    mode,
                    cur_st,
                ) == spec_search_result(
                    base_hash,
                    base_reserve_x,
                    base_reserve_y,
                    input_amount,
                    is_swap_x_to_y,
                    is_in_favor,
                    mode,
                    (SearchState { low, front, high, high_probed, high_rx, high_ry }),
                ));
            }
        }
    }
}

} // verus!
