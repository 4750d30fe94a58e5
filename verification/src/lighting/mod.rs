//! Block light on dense voxel volumes.

pub mod flood;
pub mod gpu;
pub mod order;
pub mod region;
pub mod relaxation;
pub mod volume;
