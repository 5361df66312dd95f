//! Simulation core of a tower-defense game.
//!
//! The world is a store of entities with optional components, advanced once
//! per frame by a fixed pipeline of systems: enemy pathing, shooting,
//! movement, collision detection, combat, spawning, and the terminal
//! win/lose checks.  Geometry uses integer milliunits (one thousandth of a
//! world unit), and durations use integer milliseconds, so every system has
//! an exact functional specification.

pub mod components;
pub mod grid;
pub mod input;
pub mod laws;
pub mod level;
pub mod nums;
pub mod rect;
pub mod resources;
pub mod systems;
pub mod tick;
pub mod world;
