//! A small arcade simulation core: a player moves inside a bounded window,
//! avoids roaming enemies and collects stars.
//!
//! All lengths are fixed-point integers, [`fixed::UNIT`] steps to one distance
//! unit, and all times are whole microseconds, so every rule of the game is
//! exact integer arithmetic.

pub mod collision;
pub mod confine;
pub mod effect;
pub mod fixed;
pub mod geometry;
pub mod movement;
pub mod random;
pub mod roster;
pub mod session;
pub mod sound;
pub mod spawn;
pub mod world;
