//! Level authoring: what the external level loader performs against the
//! store — creating bases, spawners and waypoints at authored positions
//! and marking their cells occupied.  `World::reset` clears the store and
//! resources for a reload.

use vstd::prelude::*;
use crate::components::{
    Base, Collider, Drawable, Faction, Health, Spawner, Transform, Waypoint, BASE_HALF_EXTENT,
    BASE_HEALTH, POS_LIMIT,
};
use crate::grid::{GridCell, GridView};
use crate::world::{EntityRec, World, WorldView};

verus! {

/// The grid cell a world coordinate falls in, saturating at the largest
/// cell index.
pub open spec fn cell_of(coord: i64, cell_size: i64) -> u32
    recommends
        coord >= 0,
        cell_size > 0,
{
    if coord / cell_size > u32::MAX {
        u32::MAX
    } else {
        (coord / cell_size) as u32
    }
}

/// The grid with the cell under `(x, y)` marked occupied, when that cell
/// exists.
pub open spec fn mark_occupied(g: GridView, x: i64, y: i64) -> GridView {
    let cx = cell_of(x, g.cell_size);
    let cy = cell_of(y, g.cell_size);
    if g.index_of(cx, cy) < g.grid.len() {
        GridView { grid: g.grid.update(g.index_of(cx, cy), GridCell::Occupied), ..g }
    } else {
        g
    }
}

/// A base: a player structure at `(x, y)` that ends the path chain under
/// the given waypoint sequence id, breakable, and fatal to lose.
pub open spec fn base_rec(x: i64, y: i64, waypoint_id: u32, id: u64) -> EntityRec {
    EntityRec {
        base: Some(Base {  }),
        waypoint: Some(Waypoint { id: waypoint_id }),
        transform: Some(Transform { x, y }),
        drawable: Some(Drawable::Base),
        faction: Some(Faction::Player),
        health: Some(Health { current_hp: BASE_HEALTH }),
        collider: Some(
            Collider { half_width: BASE_HALF_EXTENT, half_height: BASE_HALF_EXTENT },
        ),
        ..EntityRec::empty_spec(id)
    }
}

/// A path waypoint at `(x, y)` with the given sequence id.
pub open spec fn waypoint_rec(x: i64, y: i64, waypoint_id: u32, id: u64) -> EntityRec {
    EntityRec {
        waypoint: Some(Waypoint { id: waypoint_id }),
        transform: Some(Transform { x, y }),
        drawable: Some(Drawable::Waypoint),
        ..EntityRec::empty_spec(id)
    }
}

/// A spawner site at `(x, y)` with the stock wave.
pub open spec fn spawner_site_rec(x: i64, y: i64, id: u64) -> EntityRec {
    EntityRec {
        spawner: Some(
            Spawner {
                spawn_faction: Faction::Enemy,
                spawn_drawable: Drawable::Enemy,
                count: 5,
                seconds_to_spawn: 3_000,
                cooldown: 0,
            },
        ),
        transform: Some(Transform { x, y }),
        drawable: Some(Drawable::Spawner),
        ..EntityRec::empty_spec(id)
    }
}

/// The cell index under a coordinate, saturating at the largest index.
fn cell_of_exec(coord: i64, cell_size: i64) -> (c: u32)
    requires
        coord >= 0,
        cell_size > 0,
    ensures
        c == cell_of(coord, cell_size),
{
    let q: u64 = (coord as u64) / (cell_size as u64);
    if q > u32::MAX as u64 {
        u32::MAX
    } else {
        q as u32
    }
}

impl World {
    /// Mark the cell under `(x, y)` occupied, when it exists.
    fn occupy_cell(&mut self, x: i64, y: i64)
        requires
            old(self)@.wf(),
            0 <= x,
            0 <= y,
        ensures
            final(self)@ == (WorldView { grid: mark_occupied(old(self)@.grid, x, y), ..old(
                self)@ }),
            final(self)@.wf(),
    {
        let cx = cell_of_exec(x, self.grid.cell_size);
        let cy = cell_of_exec(y, self.grid.cell_size);
        self.grid.set_cell(cx, cy, GridCell::Occupied);
        proof {
            assert(final(self)@ =~= (WorldView {
                grid: mark_occupied(old(self)@.grid, x, y),
                ..old(self)@
            }));
        }
    }

    /// Create a base at `(x, y)` closing the path chain at the given
    /// waypoint sequence id, and mark its cell occupied.
    pub fn create_base(&mut self, x: i64, y: i64, waypoint_id: u32) -> (id: u64)
        requires
            old(self)@.wf(),
            0 <= x <= POS_LIMIT,
            0 <= y <= POS_LIMIT,
            old(self)@.next_id < u64::MAX,
        ensures
            id == old(self)@.next_id,
            final(self)@ == (WorldView {
                ents: old(self)@.ents.push(base_rec(x, y, waypoint_id, old(self)@.next_id)),
                next_id: (old(self)@.next_id + 1) as u64,
                grid: mark_occupied(old(self)@.grid, x, y),
                ..old(self)@
            }),
            final(self)@.wf(),
    {
        let rec = EntityRec {
            base: Some(Base {  }),
            waypoint: Some(Waypoint { id: waypoint_id }),
            transform: Some(Transform { x, y }),
            drawable: Some(Drawable::Base),
            faction: Some(Faction::Player),
            health: Some(Health { current_hp: BASE_HEALTH }),
            collider: Some(
                Collider { half_width: BASE_HALF_EXTENT, half_height: BASE_HALF_EXTENT },
            ),
            ..EntityRec::empty(0)
        };
        let id = self.create_now(rec);
        self.occupy_cell(x, y);
        proof {
            assert(final(self)@ =~= (WorldView {
                ents: old(self)@.ents.push(base_rec(x, y, waypoint_id, old(self)@.next_id)),
                next_id: (old(self)@.next_id + 1) as u64,
                grid: mark_occupied(old(self)@.grid, x, y),
                ..old(self)@
            }));
        }
        id
    }

    /// Create a waypoint at `(x, y)` with the given sequence id, and mark
    /// its cell occupied.
    pub fn create_waypoint(&mut self, x: i64, y: i64, waypoint_id: u32) -> (id: u64)
        requires
            old(self)@.wf(),
            0 <= x <= POS_LIMIT,
            0 <= y <= POS_LIMIT,
            old(self)@.next_id < u64::MAX,
        ensures
            id == old(self)@.next_id,
            final(self)@ == (WorldView {
                ents: old(self)@.ents.push(
                    waypoint_rec(x, y, waypoint_id, old(self)@.next_id),
                ),
                next_id: (old(self)@.next_id + 1) as u64,
                grid: mark_occupied(old(self)@.grid, x, y),
                ..old(self)@
            }),
            final(self)@.wf(),
    {
        let rec = EntityRec {
            waypoint: Some(Waypoint { id: waypoint_id }),
            transform: Some(Transform { x, y }),
            drawable: Some(Drawable::Waypoint),
            ..EntityRec::empty(0)
        };
        let id = self.create_now(rec);
        self.occupy_cell(x, y);
        proof {
            assert(final(self)@ =~= (WorldView {
                ents: old(self)@.ents.push(
                    waypoint_rec(x, y, waypoint_id, old(self)@.next_id),
                ),
                next_id: (old(self)@.next_id + 1) as u64,
                grid: mark_occupied(old(self)@.grid, x, y),
                ..old(self)@
            }));
        }
        id
    }

    /// Create a spawner site at `(x, y)` with the stock wave, and mark its
    /// cell occupied.
    pub fn create_spawner(&mut self, x: i64, y: i64) -> (id: u64)
        requires
            old(self)@.wf(),
            0 <= x <= POS_LIMIT,
            0 <= y <= POS_LIMIT,
            old(self)@.next_id < u64::MAX,
        ensures
            id == old(self)@.next_id,
            final(self)@ == (WorldView {
                ents: old(self)@.ents.push(spawner_site_rec(x, y, old(self)@.next_id)),
                next_id: (old(self)@.next_id + 1) as u64,
                grid: mark_occupied(old(self)@.grid, x, y),
                ..old(self)@
            }),
            final(self)@.wf(),
    {
        let rec = EntityRec {
            spawner: Some(Spawner::default()),
            transform: Some(Transform { x, y }),
            drawable: Some(Drawable::Spawner),
            ..EntityRec::empty(0)
        };
        let id = self.create_now(rec);
        self.occupy_cell(x, y);
        proof {
            assert(final(self)@ =~= (WorldView {
                ents: old(self)@.ents.push(spawner_site_rec(x, y, old(self)@.next_id)),
                next_id: (old(self)@.next_id + 1) as u64,
                grid: mark_occupied(old(self)@.grid, x, y),
                ..old(self)@
            }));
        }
        id
    }
}

} // verus!
