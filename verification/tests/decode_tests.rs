use swap_lsh::decode::{decode, DecodeMode, FIELD_HALF};

#[test]
fn decode_zero_is_zero_nonnegative() {
    for mode in [DecodeMode::Native, DecodeMode::CircuitFaithful] {
        let p = decode(0, mode);
        assert_eq!(p.magnitude, 0);
        assert!(!p.negative);
        assert_eq!(p.mode, mode);
    }
}

#[test]
fn decode_below_half_keeps_magnitude() {
    for mode in [DecodeMode::Native, DecodeMode::CircuitFaithful] {
        let p = decode(FIELD_HALF - 1, mode);
        assert_eq!(p.magnitude, FIELD_HALF - 1);
        assert!(!p.negative);
    }
}

#[test]
fn decode_above_half_is_negative_with_folded_magnitude() {
    // One past the half-point folds back to magnitude H - 1.
    for mode in [DecodeMode::Native, DecodeMode::CircuitFaithful] {
        let p = decode(FIELD_HALF + 1, mode);
        assert_eq!(p.magnitude, FIELD_HALF - 1);
        assert!(p.negative);
    }
}

#[test]
fn decode_at_half_is_negative_full_magnitude() {
    // The half-point word itself stands for the most negative value.
    for mode in [DecodeMode::Native, DecodeMode::CircuitFaithful] {
        let p = decode(FIELD_HALF, mode);
        assert_eq!(p.magnitude, FIELD_HALF);
        assert!(p.negative);
    }
}

#[test]
fn decode_max_word_is_minus_one() {
    for mode in [DecodeMode::Native, DecodeMode::CircuitFaithful] {
        let p = decode(u64::MAX, mode);
        assert_eq!(p.magnitude, 1);
        assert!(p.negative);
    }
}

#[test]
fn decode_modes_agree_on_sample_words() {
    for raw in [
        0u64,
        1,
        12345,
        FIELD_HALF - 2,
        FIELD_HALF - 1,
        FIELD_HALF,
        FIELD_HALF + 1,
        FIELD_HALF + 7,
        u64::MAX - 1,
        u64::MAX,
    ] {
        let a = decode(raw, DecodeMode::Native);
        let b = decode(raw, DecodeMode::CircuitFaithful);
        assert_eq!(a.magnitude, b.magnitude);
        assert_eq!(a.negative, b.negative);
    }
}

#[test]
fn decode_native_matches_twos_complement() {
    for raw in [1u64, 99, FIELD_HALF - 1, FIELD_HALF, FIELD_HALF + 1, u64::MAX] {
        let p = decode(raw, DecodeMode::Native);
        let signed = raw as i64;
        assert_eq!(p.negative, signed < 0);
        assert_eq!(p.magnitude, signed.unsigned_abs());
    }
}
