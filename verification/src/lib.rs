//! Locality-sensitive hashing over AMM swap state, with a verified core.
//!
//! The library derives pseudorandom projection coefficients from a Poseidon
//! hash, decodes them as signed field elements, folds input vectors through a
//! sign-tracked accumulator, assembles the per-projection signs into a bit
//! string, and searches for the smallest front-running perturbation whose
//! hash diverges from a baseline.

pub mod errors;

pub mod decode;

pub mod prf;

pub mod accum;

pub mod bitstring;

pub mod assemble;

pub mod split;

pub mod swap;

pub mod search;

pub mod sequence;
