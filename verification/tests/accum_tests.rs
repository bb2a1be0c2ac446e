use swap_lsh::accum::accumulate_sign;
use swap_lsh::decode::{DecodeMode, SignedProjection};
use swap_lsh::errors::LshError;

fn proj(magnitude: u64, negative: bool, mode: DecodeMode) -> SignedProjection {
    SignedProjection { magnitude, negative, mode }
}

#[test]
fn small_negative_term_is_negative_in_both_modes() {
    // Input 5 with a projection of magnitude 3 and negative sign.
    for mode in [DecodeMode::Native, DecodeMode::CircuitFaithful] {
        let terms = vec![(5u64, proj(3, true, mode))];
        assert_eq!(accumulate_sign(&terms, mode), Ok(true));
    }
}

#[test]
fn modes_agree_on_mixed_sign_folds() {
    for (a, an, b, bn, c, cn) in [
        (5u64, true, 3u64, false, 4u64, false),
        (10, false, 10, true, 1, true),
        (7, true, 7, false, 0, false),
        (1, false, 2, true, 3, false),
        (1000, true, 999, false, 1, false),
    ] {
        let mut signs = Vec::new();
        for mode in [DecodeMode::Native, DecodeMode::CircuitFaithful] {
            let terms = vec![
                (1u64, proj(a, an, mode)),
                (1u64, proj(b, bn, mode)),
                (1u64, proj(c, cn, mode)),
            ];
            signs.push(accumulate_sign(&terms, mode).unwrap());
        }
        assert_eq!(signs[0], signs[1]);
    }
}

#[test]
fn tie_yields_nonnegative_sign() {
    // +5 and -5 cancel to zero, which counts as non-negative.
    for mode in [DecodeMode::Native, DecodeMode::CircuitFaithful] {
        let terms = vec![(1u64, proj(5, false, mode)), (1u64, proj(5, true, mode))];
        assert_eq!(accumulate_sign(&terms, mode), Ok(false));
    }
    // The same with the negative term first: the zero tie must not keep
    // the negative flag.
    for mode in [DecodeMode::Native, DecodeMode::CircuitFaithful] {
        let terms = vec![(1u64, proj(5, true, mode)), (1u64, proj(5, false, mode))];
        assert_eq!(accumulate_sign(&terms, mode), Ok(false));
    }
}

#[test]
fn empty_terms_are_nonnegative() {
    for mode in [DecodeMode::Native, DecodeMode::CircuitFaithful] {
        let terms: Vec<(u64, SignedProjection)> = Vec::new();
        assert_eq!(accumulate_sign(&terms, mode), Ok(false));
    }
}

#[test]
fn mixed_modes_are_rejected() {
    let terms = vec![
        (5u64, proj(3, true, DecodeMode::Native)),
        (5u64, proj(3, true, DecodeMode::CircuitFaithful)),
    ];
    assert_eq!(
        accumulate_sign(&terms, DecodeMode::Native),
        Err(LshError::ModeMismatch)
    );
    assert_eq!(
        accumulate_sign(&terms, DecodeMode::CircuitFaithful),
        Err(LshError::ModeMismatch)
    );
}

#[test]
fn native_overflow_is_reported() {
    // A single product of two maximal words does not fit a signed 128-bit
    // accumulator.
    let mode = DecodeMode::Native;
    let terms = vec![(u64::MAX, proj(u64::MAX, false, mode))];
    assert_eq!(accumulate_sign(&terms, mode), Err(LshError::Overflow));
}

#[test]
fn circuit_overflow_is_reported() {
    // Two near-maximal same-sign products exceed the unsigned 128-bit
    // magnitude.
    let mode = DecodeMode::CircuitFaithful;
    let terms = vec![
        (u64::MAX, proj(u64::MAX, false, mode)),
        (u64::MAX, proj(u64::MAX, false, mode)),
    ];
    assert_eq!(accumulate_sign(&terms, mode), Err(LshError::Overflow));
}

#[test]
fn circuit_holds_single_maximal_product() {
    // One maximal product still fits the unsigned 128-bit magnitude, so
    // the circuit-faithful path accepts what the native path must refuse.
    let mode = DecodeMode::CircuitFaithful;
    let terms = vec![(u64::MAX, proj(u64::MAX, true, mode))];
    assert_eq!(accumulate_sign(&terms, mode), Ok(true));
}
