//! What blocks decide.

pub mod cauldron;
pub mod leaves;
