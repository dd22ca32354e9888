//! Inverted-file (IVF) index: cluster layout, seeding RNG and index state.

pub mod index;
pub mod layout;
pub mod rng;
