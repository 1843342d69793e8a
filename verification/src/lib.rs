//! Core engine of a 2D platformer: a deterministic ghost-replay recorder,
//! an event-driven ghost lifecycle, and a level codec that round-trips level
//! definitions through a compact version-tagged binary-over-text encoding.

pub mod animation;
pub mod codec;
pub mod collectable;
pub mod ghost;
pub mod levels;
pub mod player;
pub mod text;
pub mod tile_map;
pub mod user_input;
pub mod varint;

pub use tile_map::GridPos;
