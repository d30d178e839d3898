//! Game rules of a small 2D arcade shooter: health and damage, keyboard and
//! mouse input, collision groups, spawning and sound effects.
//!
//! The rules are functions with contracts, over plain values and over a few
//! types of the game engine: its entities, its records of keyboard and
//! mouse, and the physics plugin's table of collisions. What reaches into
//! the running engine (queries, commands, assets, audio, the window) is left
//! to a front end, which reads the engine's state, asks these functions
//! what to do and carries the answers out.

pub mod collision;
pub mod engine;
pub mod health;
pub mod input;
mod rng;
pub mod sound;
pub mod world;
