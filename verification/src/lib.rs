//! Verified game logic of the Pumpkin server: registries, lighting, blocks,
//! entities, commands and the world border.

pub mod block;
pub mod command;
pub mod config;
pub mod entity;
pub mod ieee;
pub mod lighting;
pub mod position;
pub mod registry;
mod shared;
pub mod terminal;
mod text;
pub mod world;
