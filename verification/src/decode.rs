//! Decoding a raw 64-bit projection word into a signed magnitude.
//!
//! The raw word is read as an element of a field whose half-point is
//! `FIELD_HALF`: words at or above the half-point stand for negative values.
//! Two decode modes exist.  `Native` reinterprets the word as a
//! two's-complement signed integer, whose magnitude for a word `raw >=
//! FIELD_HALF` is `2^64 - raw`.  `CircuitFaithful` mirrors a circuit's
//! subtraction of the half-point constant, giving magnitude `FIELD_HALF -
//! (raw - FIELD_HALF)`.  The two formulas coincide on every word, so both
//! modes decode to the same magnitude and sign; the mode is still recorded on
//! the decoded value, because mixing modes inside one accumulation is a
//! usage error that the accumulator rejects.

use vstd::prelude::*;

verus! {

/// Half-point of the 64-bit field range: `2^63`.
pub const FIELD_HALF: u64 = 0x8000000000000000;

/// Which arithmetic path a hash computation follows.
#[derive(Clone, Copy, Debug, PartialEq, Eq, Structural)]
pub enum DecodeMode {
    /// Native machine arithmetic on wide signed integers.
    Native,
    /// Arithmetic mirroring a finite-field circuit: unsigned magnitudes with
    /// an explicit sign flag.
    CircuitFaithful,
}

/// A projection coefficient decoded into magnitude and sign, tagged with the
/// mode it was decoded under.
#[derive(Clone, Copy, Debug, PartialEq, Eq, Structural)]
pub struct SignedProjection {
    /// Absolute value of the coefficient; at most `FIELD_HALF`.
    pub magnitude: u64,
    /// True when the coefficient stands for a negative value.
    pub negative: bool,
    /// The mode this coefficient was decoded under.
    pub mode: DecodeMode,
}

/// Whether a raw word stands for a negative value.
pub open spec fn spec_raw_negative(raw: u64) -> bool {
    raw >= FIELD_HALF
}

/// Magnitude of the value a raw word stands for.
pub open spec fn spec_raw_magnitude(raw: u64) -> int {
    if raw >= FIELD_HALF {
        FIELD_HALF - (raw - FIELD_HALF)
    } else {
        raw as int
    }
}

/// The signed value a raw word stands for.
pub open spec fn spec_raw_value(raw: u64) -> int {
    if spec_raw_negative(raw) {
        -spec_raw_magnitude(raw)
    } else {
        spec_raw_magnitude(raw)
    }
}

/// The magnitude of a decoded word never exceeds the half-point.
pub proof fn lemma_magnitude_bounded(raw: u64)
    ensures
        0 <= spec_raw_magnitude(raw) <= FIELD_HALF,
{
}

/// Decode a raw projection word under the given mode.
///
/// Both modes yield the same magnitude and sign on every word, since for
/// `raw >= FIELD_HALF` the two's-complement magnitude `2^64 - raw` equals
/// the circuit form `FIELD_HALF - (raw - FIELD_HALF)`; the mode is recorded
/// so that later accumulation can reject mixed-mode inputs.
pub fn decode(raw: u64, mode: DecodeMode) -> (r: SignedProjection)
    ensures
        r.mode == mode,
        r.negative == spec_raw_negative(raw),
        r.magnitude == spec_raw_magnitude(raw),
{
    if raw >= FIELD_HALF {
        SignedProjection { magnitude: FIELD_HALF - (raw - FIELD_HALF), negative: true, mode }
    } else {
        SignedProjection { magnitude: raw, negative: false, mode }
    }
}

} // verus!
