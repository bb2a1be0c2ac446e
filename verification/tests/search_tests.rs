use swap_lsh::bitstring::hamming_distance;
use swap_lsh::decode::DecodeMode;
use swap_lsh::errors::LshError;
use swap_lsh::search::binary_search_first_hamming_diff;
use swap_lsh::swap::{fake_trade_to_x, fake_trade_to_y, get_hash};

const BX: u64 = 1_000_000;
const BY: u64 = 2_000_000;
const INPUT: u64 = 100;

fn probe_hash(is_in_favor: bool, amount: u64) -> u64 {
    let (rx, ry) = if is_in_favor {
        fake_trade_to_x(BX, BY, amount)
    } else {
        fake_trade_to_y(BX, BY, amount)
    };
    get_hash(true, rx, ry, INPUT, DecodeMode::Native).unwrap().0
}

#[test]
fn search_finds_a_first_divergence_in_favor() {
    let (base_hash, _) = get_hash(true, BX, BY, INPUT, DecodeMode::Native).unwrap();
    let (rx, ry, amt) = binary_search_first_hamming_diff(
        base_hash,
        BX,
        BY,
        INPUT,
        true,
        true,
        DecodeMode::Native,
    )
    .unwrap();
    assert!(amt >= 1);
    assert!(amt <= 2 * BY);
    // The returned reserves are the state after the front-run trade.
    assert_eq!((rx, ry), fake_trade_to_x(BX, BY, amt));
    // The returned amount diverges while its predecessor does not.
    assert!(hamming_distance(base_hash, probe_hash(true, amt)) > 0);
    if amt > 1 {
        assert_eq!(hamming_distance(base_hash, probe_hash(true, amt - 1)), 0);
    }
}

#[test]
fn search_finds_a_first_divergence_against() {
    let (base_hash, _) = get_hash(true, BX, BY, INPUT, DecodeMode::Native).unwrap();
    let (rx, ry, amt) = binary_search_first_hamming_diff(
        base_hash,
        BX,
        BY,
        INPUT,
        true,
        false,
        DecodeMode::Native,
    )
    .unwrap();
    assert!(amt >= 1);
    assert!(amt <= 2 * BX);
    assert_eq!((rx, ry), fake_trade_to_y(BX, BY, amt));
    assert!(hamming_distance(base_hash, probe_hash(false, amt)) > 0);
    if amt > 1 {
        assert_eq!(hamming_distance(base_hash, probe_hash(false, amt - 1)), 0);
    }
}

#[test]
fn search_reports_a_bracket_without_divergence() {
    // With the base hash equal to the very hash every early probe
    // produces, the tiny bracket [0, 2] collapses without ever observing
    // a divergence.
    let first_probe = probe_hash_tiny(1);
    let r = binary_search_first_hamming_diff(
        first_probe,
        1,
        1,
        1,
        true,
        true,
        DecodeMode::Native,
    );
    assert_eq!(r, Err(LshError::DivergentBracket));
}

#[test]
fn search_returns_an_immediately_diverging_probe() {
    // Against a base hash that differs from the first probe's hash, the
    // smallest amount already diverges.
    let first_probe = probe_hash_tiny(1);
    let r = binary_search_first_hamming_diff(
        !first_probe,
        1,
        1,
        1,
        true,
        true,
        DecodeMode::Native,
    );
    let (rx, ry, amt) = r.unwrap();
    assert_eq!(amt, 1);
    assert_eq!((rx, ry), fake_trade_to_x(1, 1, 1));
}

fn probe_hash_tiny(amount: u64) -> u64 {
    let (rx, ry) = fake_trade_to_x(1, 1, amount);
    get_hash(true, rx, ry, 1, DecodeMode::Native).unwrap().0
}

#[test]
fn search_rejects_an_overflowing_bracket() {
    let r = binary_search_first_hamming_diff(
        0,
        1,
        u64::MAX,
        1,
        true,
        true,
        DecodeMode::Native,
    );
    assert_eq!(r, Err(LshError::Overflow));
}
