//! What entities decide.

pub mod combat;
pub mod experience_orb;
pub mod goals;
pub mod item;
pub mod item_frame;
pub mod nbt;
pub mod ocelot;
pub mod rabbit;
