//! What worlds decide.

pub mod border;
