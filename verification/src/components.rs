//! Components attached to entities, and the tuning constants of the game.
//!
//! All geometry is measured in milliunits (one thousandth of a world unit)
//! and all durations in milliseconds, so that each system's effect can be
//! stated exactly over the integers.

use vstd::prelude::*;

verus! {

/// Largest coordinate magnitude a `Transform` may hold, in milliunits.
/// Keeps squared distances and scaled displacements inside `u128`.
pub const POS_LIMIT: i64 = 1_000_000_000_000_000;

/// Largest magnitude a `Velocity` direction component may hold: the
/// difference of two in-bounds coordinates.
pub const DIR_LIMIT: i64 = 2_000_000_000_000_000;

/// Largest speed a `Velocity` may hold, in milliunits per second.
pub const SPEED_MAX: u64 = 1_000_000_000;

/// Largest collider half-extent, in milliunits.
pub const EXTENT_MAX: i64 = 1_000_000_000_000;

/// Largest frame duration handed to the pipeline, in milliseconds.
pub const DT_MAX: u64 = 1_000_000;

/// Speed of a projectile fired by a shooter, in milliunits per second.
pub const PROJECTILE_SPEED: u64 = 300_000;

/// Half-extent of a projectile's collider, in milliunits.
pub const PROJECTILE_HALF_EXTENT: i64 = 4_000;

/// Damage carried by a projectile.
pub const PROJECTILE_DAMAGE: u32 = 1;

/// Forward speed of a freshly spawned hostile, in milliunits per second.
pub const ENEMY_SPEED: u64 = 60_000;

/// Half-extent of a spawned hostile's collider, in milliunits.
pub const ENEMY_HALF_EXTENT: i64 = 20_000;

/// Starting hit points of a spawned hostile.
pub const ENEMY_HEALTH: u32 = 5;

/// Damage carried by a spawned hostile.
pub const ENEMY_DAMAGE: u32 = 1;

/// Distance at which an enemy counts as having arrived at its waypoint,
/// in milliunits.
pub const ARRIVE_DIST: u64 = 10_000;

/// Currency cost of placing a tower.
pub const TOWER_COST: u32 = 10;

/// Attack period of a placed tower, in milliseconds.
pub const TOWER_ATTACK_PERIOD: u64 = 1_000;

/// Attack radius of a placed tower, in milliunits.
pub const TOWER_ATTACK_RADIUS: u64 = 100_000;

/// Currency credited when a hostile dies.
pub const ENEMY_BOUNTY: u32 = 5;

/// Currency balance a fresh level starts with.
pub const START_BITS: u32 = 30;

/// Starting hit points of a base.
pub const BASE_HEALTH: u32 = 1;

/// Half-extent of a base's collider, in milliunits.
pub const BASE_HALF_EXTENT: i64 = 20_000;

/// A 2D position, in milliunits.
#[derive(Clone, Copy, Debug, PartialEq, Eq, Structural)]
pub struct Transform {
    pub x: i64,
    pub y: i64,
}

impl Transform {
    /// Position at the given coordinates.
    pub fn new(x: i64, y: i64) -> (t: Self)
        ensures
            t == (Transform { x, y }),
    {
        Transform { x, y }
    }

    /// Both coordinates lie within the world bounds.
    pub open spec fn wf(self) -> bool {
        &&& -POS_LIMIT <= self.x <= POS_LIMIT
        &&& -POS_LIMIT <= self.y <= POS_LIMIT
    }
}

/// Visual variant of an entity; the presentation layer draws by it, the
/// simulation only copies it around.
#[derive(Clone, Copy, Debug, PartialEq, Eq, Structural)]
pub enum Drawable {
    Tower,
    Enemy,
    Projectile,
    Spawner,
    Base,
    Waypoint,
}

/// Combat side of an entity.  The sole targeting and damage discriminator:
/// same-faction entities never target, collide with, or damage each other.
#[derive(Clone, Copy, Debug, PartialEq, Eq, Structural)]
pub enum Faction {
    Player,
    Enemy,
}

/// Attached to defensive structures: attack radius (milliunits), attack
/// period and remaining cooldown (milliseconds).
#[derive(Clone, Copy, Debug, PartialEq, Eq, Structural)]
pub struct Shooter {
    pub seconds_per_attack: u64,
    pub cooldown: u64,
    pub attack_radius: u64,
}

/// A movement intent: a travel speed (milliunits per second) and an
/// unnormalized heading vector.  Keeping speed separate from heading lets
/// retargeting change direction while provably preserving speed.
#[derive(Clone, Copy, Debug, PartialEq, Eq, Structural)]
pub struct Velocity {
    pub speed: u64,
    pub dir_x: i64,
    pub dir_y: i64,
}

impl Velocity {
    /// Velocity with the given speed and heading.
    pub fn new(speed: u64, dir_x: i64, dir_y: i64) -> (v: Self)
        ensures
            v == (Velocity { speed, dir_x, dir_y }),
    {
        Velocity { speed, dir_x, dir_y }
    }

    /// Speed and heading lie within the bounds the movement arithmetic needs.
    pub open spec fn wf(self) -> bool {
        &&& self.speed <= SPEED_MAX
        &&& -DIR_LIMIT <= self.dir_x <= DIR_LIMIT
        &&& -DIR_LIMIT <= self.dir_y <= DIR_LIMIT
    }
}

/// Axis-aligned half-extents (milliunits) for overlap testing.
#[derive(Clone, Copy, Debug, PartialEq, Eq, Structural)]
pub struct Collider {
    pub half_width: i64,
    pub half_height: i64,
}

impl Collider {
    /// Collider with the given half-extents.
    pub fn new(half_width: i64, half_height: i64) -> (c: Self)
        ensures
            c == (Collider { half_width, half_height }),
    {
        Collider { half_width, half_height }
    }

    /// Half-extents are non-negative and bounded.
    pub open spec fn wf(self) -> bool {
        &&& 0 <= self.half_width <= EXTENT_MAX
        &&& 0 <= self.half_height <= EXTENT_MAX
    }
}

/// Marks an entity as a projectile.
#[derive(Clone, Copy, Debug, PartialEq, Eq, Structural)]
pub struct Projectile {}

/// Carries a damage value; an entity bearing it is consumed (deleted) upon
/// registering a hit.
#[derive(Clone, Copy, Debug, PartialEq, Eq, Structural)]
pub struct Attacker {
    pub damage: u32,
}

/// Current hit points.  Damage application saturates at zero; an entity is
/// eligible for death exactly when this reaches zero.
#[derive(Clone, Copy, Debug, PartialEq, Eq, Structural)]
pub struct Health {
    pub current_hp: u32,
}

/// Periodically materializes hostile entities until its count is exhausted,
/// then deletes itself.  Interval and cooldown are in milliseconds.
#[derive(Clone, Copy, Debug, PartialEq, Eq, Structural)]
pub struct Spawner {
    pub spawn_faction: Faction,
    pub spawn_drawable: Drawable,
    pub count: u32,
    pub seconds_to_spawn: u64,
    pub cooldown: u64,
}

impl Spawner {
    /// The stock wave: five hostiles, one every three seconds.
    pub fn default() -> (s: Self)
        ensures
            s == (Spawner {
                spawn_faction: Faction::Enemy,
                spawn_drawable: Drawable::Enemy,
                count: 5,
                seconds_to_spawn: 3_000,
                cooldown: 0,
            }),
    {
        Spawner {
            spawn_faction: Faction::Enemy,
            spawn_drawable: Drawable::Enemy,
            count: 5,
            seconds_to_spawn: 3_000,
            cooldown: 0,
        }
    }
}

/// A station of the authored path.  Waypoints form an explicit chain by id:
/// the successor of the waypoint with id `n` is the one with id `n + 1`.
#[derive(Clone, Copy, Debug, PartialEq, Eq, Structural)]
pub struct Waypoint {
    pub id: u32,
}

/// Marks a hostile pathing unit and records the entity id of the waypoint
/// it is currently heading towards.
#[derive(Clone, Copy, Debug, PartialEq, Eq, Structural)]
pub struct Enemy {
    pub current_waypoint: u64,
}

/// Marks a structure whose destruction loses the game.
#[derive(Clone, Copy, Debug, PartialEq, Eq, Structural)]
pub struct Base {}

} // verus!
