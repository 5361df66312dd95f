//! The placement request of the input layer: on a build click, a tower is
//! placed if — and only if — the balance covers the cost and the clicked
//! cell is buildable.  The cell becomes occupied, the cost is deducted,
//! and the tower's creation is deferred to the next tick.

use vstd::prelude::*;
use crate::components::{
    Faction, Shooter, Transform, Drawable, TOWER_ATTACK_PERIOD, TOWER_ATTACK_RADIUS, TOWER_COST,
};
use crate::grid::{GridCell, GridView};
use crate::resources::BuildResources;
use crate::world::{EntityRec, World, WorldView};

verus! {

/// The world coordinate of a cell's center along one axis.
pub open spec fn cell_center(cell: u32, cell_size: i64) -> int {
    cell * cell_size + cell_size / 2
}

/// The tower a placement click creates: a player-faction shooter at the
/// cell's center, ready to fire.
pub open spec fn tower_rec(x: i64, y: i64, id: u64) -> EntityRec {
    EntityRec {
        transform: Some(Transform { x, y }),
        drawable: Some(Drawable::Tower),
        faction: Some(Faction::Player),
        shooter: Some(
            Shooter {
                seconds_per_attack: TOWER_ATTACK_PERIOD,
                cooldown: 0,
                attack_radius: TOWER_ATTACK_RADIUS,
            },
        ),
        ..EntityRec::empty_spec(id)
    }
}

impl World {
    /// Handle a build click on the given cell.  Returns whether a tower
    /// was placed.
    pub fn try_build_tower(&mut self, cell_x: u32, cell_y: u32) -> (built: bool)
        requires
            old(self)@.wf(),
            old(self)@.next_id < u64::MAX,
        ensures
            built == (old(self)@.build_resources.bits >= TOWER_COST && old(self)@.grid.cell(
                cell_x, cell_y) == Some(GridCell::Buildable)),
            built ==> final(self)@ == (WorldView {
                build_resources: BuildResources {
                    bits: (old(self)@.build_resources.bits - TOWER_COST) as u32,
                },
                grid: GridView {
                    grid: old(self)@.grid.grid.update(
                        old(self)@.grid.index_of(cell_x, cell_y),
                        GridCell::Occupied,
                    ),
                    ..old(self)@.grid
                },
                pending: old(self)@.pending.push(
                    tower_rec(
                        cell_center(cell_x, old(self)@.grid.cell_size) as i64,
                        cell_center(cell_y, old(self)@.grid.cell_size) as i64,
                        old(self)@.next_id,
                    ),
                ),
                next_id: (old(self)@.next_id + 1) as u64,
                ..old(self)@
            }),
            !built ==> final(self)@ == old(self)@,
            final(self)@.wf(),
    {
        let ghost v0 = old(self)@;
        if self.build_resources.bits < TOWER_COST {
            return false;
        }
        if !self.grid.is_buildable(cell_x, cell_y) {
            return false;
        }
        proof {
            // A buildable cell's linear index is in range, which bounds
            // both cell coordinates and keeps the center in the world.
            let idx = v0.grid.index_of(cell_x, cell_y);
            assert(idx < v0.grid.grid.len());
            assert(idx >= 0) by (nonlinear_arith)
                requires
                    idx == cell_y * v0.grid.width + cell_x,
                    cell_x >= 0,
                    cell_y >= 0,
                    v0.grid.width >= 0,
            ;
            assert(v0.grid.width >= 1 && v0.grid.height >= 1) by (nonlinear_arith)
                requires
                    0 <= idx < v0.grid.width * v0.grid.height,
                    v0.grid.width >= 0,
                    v0.grid.height >= 0,
            ;
            assert(cell_x <= idx && cell_y <= idx) by (nonlinear_arith)
                requires
                    idx == cell_y * v0.grid.width + cell_x,
                    v0.grid.width >= 1,
                    cell_x >= 0,
                    cell_y >= 0,
            ;
            assert(idx < 16_384 * 16_384) by (nonlinear_arith)
                requires
                    idx < v0.grid.width * v0.grid.height,
                    v0.grid.width <= 16_384,
                    v0.grid.height <= 16_384,
            ;
            assert(0 <= cell_x * v0.grid.cell_size <= 16_384 * 16_384 * 200_000)
                by (nonlinear_arith)
                requires
                    0 <= cell_x <= 16_384 * 16_384,
                    0 < v0.grid.cell_size <= 200_000,
            ;
            assert(0 <= cell_y * v0.grid.cell_size <= 16_384 * 16_384 * 200_000)
                by (nonlinear_arith)
                requires
                    0 <= cell_y <= 16_384 * 16_384,
                    0 < v0.grid.cell_size <= 200_000,
            ;
        }
        let cs = self.grid.cell_size;
        let wx: i64 = (cell_x as i64) * cs + cs / 2;
        let wy: i64 = (cell_y as i64) * cs + cs / 2;
        self.grid.set_cell(cell_x, cell_y, GridCell::Occupied);
        let tower = EntityRec {
            transform: Some(Transform { x: wx, y: wy }),
            drawable: Some(Drawable::Tower),
            faction: Some(Faction::Player),
            shooter: Some(
                Shooter {
                    seconds_per_attack: TOWER_ATTACK_PERIOD,
                    cooldown: 0,
                    attack_radius: TOWER_ATTACK_RADIUS,
                },
            ),
            ..EntityRec::empty(0)
        };
        let _ = self.defer_create(tower);
        self.build_resources = BuildResources { bits: self.build_resources.bits - TOWER_COST };
        true
    }
}

} // verus!
