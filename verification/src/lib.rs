//! Clock-tree resolver for a microcontroller clock generator.
//!
//! The library searches the legal combinations of a PLL stage (one input
//! divider, one multiplier, three output dividers) followed by two cascaded
//! bus-prescaler stages, prunes combinations whose intermediate taps fall
//! outside the fixed physical ranges, scores the survivors against the
//! caller's soft frequency requirements, and returns the lowest-error
//! configuration together with the frequency it produces at every tap.
//!
//! All tap frequencies are kept as exact integer ratios, so every range
//! check and every score comparison is exact integer arithmetic.

pub mod rate;
pub mod types;
pub mod model;
pub mod score;
pub mod search;
pub mod laws;
pub mod emit;
