//! What commands decide.

pub mod distance;
pub mod locate;
pub mod structure_sets;
