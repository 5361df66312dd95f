//! Shared per-world resources: frame time, terminal game state, currency,
//! the per-tick transient event records, and the fatal level-data errors.

use vstd::prelude::*;

verus! {

/// Duration of the current frame, in milliseconds.
#[derive(Clone, Copy, Debug, PartialEq, Eq, Structural)]
pub struct DeltaTime(pub u64);

/// Terminal game state.  `Play` runs the pipeline; `Win` and `Lose` are
/// terminal until an external level reload resets the world.
#[derive(Clone, Copy, Debug, PartialEq, Eq, Structural)]
pub enum PlayState {
    Play,
    Win,
    Lose,
}

impl PlayState {
    /// The state a fresh or reloaded level starts in.
    pub fn default() -> (s: Self)
        ensures
            s == PlayState::Play,
    {
        PlayState::Play
    }
}

/// Currency balance, spent to place structures and credited on hostile
/// deaths.
#[derive(Clone, Copy, Debug, PartialEq, Eq, Structural)]
pub struct BuildResources {
    pub bits: u32,
}

/// One ordered overlap between two opposing entities, recorded by the
/// collision system and consumed by the attack system within the same tick.
#[derive(Clone, Copy, Debug, PartialEq, Eq, Structural)]
pub struct CollisionEvent {
    pub entity_a: u64,
    pub entity_b: u64,
}

/// A deletion recorded by the attack system, consumed by the death system
/// within the same tick.
#[derive(Clone, Copy, Debug, PartialEq, Eq, Structural)]
pub struct DeathEvent {
    pub entity: u64,
}

/// Fatal inconsistencies in authored level data, surfaced by the tick
/// instead of a crash.
#[derive(Clone, Copy, Debug, PartialEq, Eq, Structural)]
pub enum SimError {
    /// No live entity carries a waypoint with this sequence id (a spawner
    /// seeks id 0; enemy pathing seeks the current id plus one).
    MissingWaypoint { id: u64 },
    /// An enemy's current waypoint reference does not resolve to a live
    /// entity with both a waypoint and a position.
    DanglingWaypoint { entity: u64 },
}

} // verus!
