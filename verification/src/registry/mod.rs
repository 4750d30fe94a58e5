//! Registries of shared values, keyed by namespaced identifiers, with network IDs per version.

pub mod error;
pub mod identifier;
pub mod key;
pub mod lookup;
pub mod mapping;
pub mod store;
pub mod tables;

pub use store::Registry;
