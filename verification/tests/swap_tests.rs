use swap_lsh::decode::DecodeMode;
use swap_lsh::errors::LshError;
use swap_lsh::swap::{fake_trade_to_x, fake_trade_to_y, get_boundary_hashes, get_hash};

#[test]
fn trade_to_y_conserves_the_product() {
    let (nx, ny) = fake_trade_to_y(1_000_000, 2_000_000, 100);
    assert_eq!(nx, 1_000_100);
    assert_eq!(ny, 2_000_000_000_000u64 / 1_000_100);
    assert!(ny <= 2_000_000);
    assert!((nx as u128) * (ny as u128) <= 2_000_000_000_000u128);
}

#[test]
fn trade_to_x_conserves_the_product() {
    let (nx, ny) = fake_trade_to_x(1_000_000, 2_000_000, 100);
    assert_eq!(ny, 2_000_100);
    assert_eq!(nx, 2_000_000_000_000u64 / 2_000_100);
    assert!(nx <= 1_000_000);
}

#[test]
fn trade_with_zero_opposite_balance_pays_nothing() {
    let (nx, ny) = fake_trade_to_y(0, 5, 10);
    assert_eq!(nx, 10);
    assert_eq!(ny, 0);
}

#[test]
fn get_hash_is_deterministic() {
    let a = get_hash(true, 1_000_000, 2_000_000, 100, DecodeMode::Native).unwrap();
    let b = get_hash(true, 1_000_000, 2_000_000, 100, DecodeMode::Native).unwrap();
    assert_eq!(a, b);
}

#[test]
fn get_hash_reports_the_swap_output() {
    let (_, output) = get_hash(true, 1_000_000, 2_000_000, 100, DecodeMode::Native).unwrap();
    let (_, ny) = fake_trade_to_y(1_000_000, 2_000_000, 100);
    assert_eq!(output, 2_000_000 - ny);
}

#[test]
fn get_hash_agrees_across_modes() {
    let a = get_hash(true, 1_000_000, 2_000_000, 100, DecodeMode::Native).unwrap();
    let b = get_hash(true, 1_000_000, 2_000_000, 100, DecodeMode::CircuitFaithful).unwrap();
    assert_eq!(a, b);
}

#[test]
fn get_hash_rejects_overflowing_swaps() {
    assert_eq!(
        get_hash(true, u64::MAX, 5, 1, DecodeMode::Native),
        Err(LshError::Overflow)
    );
    assert_eq!(
        get_hash(false, 5, u64::MAX, 1, DecodeMode::Native),
        Err(LshError::Overflow)
    );
    // An empty pool with no input divides by zero.
    assert_eq!(
        get_hash(true, 0, 5, 0, DecodeMode::Native),
        Err(LshError::Overflow)
    );
}

#[test]
fn boundary_hashes_bracket_the_output() {
    let (upper_hash, lower_hash, upper, lower, output) = get_boundary_hashes(
        true,
        10_000_000_000_000,
        80_000_000_000_000,
        10_000_000,
        200,
        DecodeMode::Native,
    )
    .unwrap();
    assert_eq!(upper, output + output * 200 / 10_000);
    assert_eq!(lower, output - output * 200 / 10_000);
    assert_eq!(upper_hash.len(), 128);
    assert_eq!(lower_hash.len(), 128);
    let d = upper_hash.distance(&lower_hash).unwrap();
    assert!(d <= 128);
}

#[test]
fn boundary_hashes_with_zero_slippage_coincide() {
    let (upper_hash, lower_hash, upper, lower, output) =
        get_boundary_hashes(true, 1_000_000, 2_000_000, 100, 0, DecodeMode::Native).unwrap();
    assert_eq!(upper, output);
    assert_eq!(lower, output);
    assert_eq!(upper_hash.distance(&lower_hash), Ok(0));
}

#[test]
fn boundary_hashes_reject_excessive_slippage() {
    // More than 100% slippage would drive the lower boundary below zero.
    assert_eq!(
        get_boundary_hashes(true, 1_000_000, 2_000_000, 100, 20_001, DecodeMode::Native)
            .err(),
        Some(LshError::Overflow)
    );
}
