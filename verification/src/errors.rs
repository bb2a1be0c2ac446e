//! Error values surfaced by the hashing and search engine.

use vstd::prelude::*;

verus! {

/// Failure of a core operation.  Every variant marks a bug or a
/// misconfiguration, never a transient condition, so none is retried.
#[derive(Clone, Copy, Debug, PartialEq, Eq, Structural)]
pub enum LshError {
    /// The underlying hash primitive reported a failure.  The library
    /// shapes every call so that the primitive cannot fail, so its
    /// verified functions never return this.
    HashComputation,
    /// A width-bound assumption was violated: an intermediate value did not
    /// fit the wide integer type that carries it.
    Overflow,
    /// Projections decoded under different modes were mixed in one
    /// accumulation.
    ModeMismatch,
    /// A divergence search exhausted its bracket without ever observing a
    /// diverging probe.
    DivergentBracket,
    /// A Hamming distance was requested between bit strings of different
    /// lengths.
    LengthMismatch,
}

} // verus!
