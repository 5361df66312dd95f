//! The per-tick systems, in their pipeline order: enemy pathing, shooting,
//! movement, collision detection, combat, spawning, and the death and win
//! checks.  Each system's executable `run` is proved equal to a functional
//! specification over the world view; the tick composes those
//! specifications.

pub mod attack;
pub mod collision;
pub mod death;
pub mod enemy_ai;
pub mod movement;
pub mod shooter;
pub mod spawner;
pub mod win;
