//! A 2D grid-based dungeon level: procedural generation (non-overlapping room
//! placement, tunnel connection, randomized mineral vein growth), movement and
//! mining rules, and a visibility tracker with persistent explored state.
//!
//! All randomized passes thread an explicit seedable generator value, so a
//! fixed seed reproduces an identical level.

pub mod components;
pub mod generator;
pub mod grid;
pub mod player;
pub mod rng;
pub mod tile;
pub mod user_input;
pub mod visibility;
