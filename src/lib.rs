//! Seed-reproducible layered gradient noise: the integer core.
//!
//! `random` holds the seeded generator and its label-keyed derivation,
//! `noise` the permutation table and lattice hashing of one octave, and
//! `octaves` the bookkeeping of a stack of octaves.

pub mod random;
pub mod noise;
pub mod octaves;
