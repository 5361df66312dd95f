//! The grid, the placement rule, rectangle overlap, and the integer
//! geometry helpers.

use isengard_returns::components::{Faction, Velocity};
use isengard_returns::grid::{Grid, GridCell};
use isengard_returns::nums::{dist_sq_exec, displacement, isqrt};
use isengard_returns::rect::Rect;
use isengard_returns::world::World;

#[test]
fn grid_starts_buildable_and_updates() {
    let mut g = Grid::new(4, 3, 32_000);
    assert_eq!(g.get_cell(0, 0), Some(GridCell::Buildable));
    assert_eq!(g.get_cell(3, 2), Some(GridCell::Buildable));
    assert_eq!(g.get_cell(0, 3), None);
    assert!(g.set_cell(2, 1, GridCell::Walkable));
    assert!(g.is_walkable(2, 1));
    assert!(!g.is_buildable(2, 1));
    assert!(!g.is_occupied(2, 1));
    assert!(g.set_cell(2, 1, GridCell::Occupied));
    assert!(g.is_occupied(2, 1));
    assert!(!g.set_cell(0, 5, GridCell::Occupied));
}

#[test]
fn placement_on_occupied_cell_changes_nothing() {
    let mut w = World::new(Grid::new(8, 8, 32_000));
    w.grid.set_cell(1, 1, GridCell::Occupied);
    let ents_before = w.ents.len();
    let pending_before = w.pending.len();
    assert!(!w.try_build_tower(1, 1));
    // No entity created, currency unchanged, grid unchanged.
    assert_eq!(w.ents.len(), ents_before);
    assert_eq!(w.pending.len(), pending_before);
    assert_eq!(w.build_resources.bits, 30);
    assert!(w.grid.is_occupied(1, 1));
}

#[test]
fn placement_on_buildable_cell_builds_a_tower() {
    let mut w = World::new(Grid::new(8, 8, 32_000));
    assert!(w.try_build_tower(2, 1));
    assert_eq!(w.build_resources.bits, 20);
    assert!(w.grid.is_occupied(2, 1));
    assert_eq!(w.pending.len(), 1);
    let t = &w.pending[0];
    // The tower sits at the cell's center with the stock shooter.
    let tr = t.transform.unwrap();
    assert_eq!((tr.x, tr.y), (2 * 32_000 + 16_000, 32_000 + 16_000));
    let sh = t.shooter.unwrap();
    assert_eq!(sh.attack_radius, 100_000);
    assert_eq!(sh.seconds_per_attack, 1_000);
    assert_eq!(sh.cooldown, 0);
    assert_eq!(t.faction, Some(Faction::Player));
    // The deferred tower joins the store on the next tick.
    assert_eq!(w.tick(16), Ok(()));
    assert!(w.ents.iter().any(|r| r.shooter.is_some()));
}

#[test]
fn placement_fails_without_funds() {
    let mut w = World::new(Grid::new(8, 8, 32_000));
    w.build_resources.bits = 9;
    assert!(!w.try_build_tower(2, 1));
    assert_eq!(w.build_resources.bits, 9);
    assert!(w.grid.is_buildable(2, 1));
    assert_eq!(w.pending.len(), 0);
}

#[test]
fn placement_outside_the_grid_is_rejected() {
    let mut w = World::new(Grid::new(4, 4, 32_000));
    assert!(!w.try_build_tower(9, 9));
    assert_eq!(w.build_resources.bits, 30);
}

#[test]
fn rect_overlap_is_strict() {
    let a = Rect { x: 0, y: 0, half_width: 10, half_height: 10 };
    let touching = Rect { x: 20, y: 0, half_width: 10, half_height: 10 };
    let crossing = Rect { x: 19, y: 0, half_width: 10, half_height: 10 };
    let diagonal = Rect { x: 19, y: 19, half_width: 10, half_height: 10 };
    assert!(!a.overlaps(&touching));
    assert!(a.overlaps(&crossing));
    assert!(a.overlaps(&diagonal));
    assert_eq!(a.left(), -10);
    assert_eq!(a.right(), 10);
    assert_eq!(a.top(), -10);
    assert_eq!(a.bottom(), 10);
}

#[test]
fn integer_square_root_is_exact() {
    assert_eq!(isqrt(0), 0);
    assert_eq!(isqrt(1), 1);
    assert_eq!(isqrt(24), 4);
    assert_eq!(isqrt(25), 5);
    assert_eq!(isqrt(26), 5);
    assert_eq!(isqrt(1_000_000_000_000), 1_000_000);
}

#[test]
fn squared_distance_is_exact() {
    assert_eq!(dist_sq_exec(0, 0, 3, 4), 25);
    assert_eq!(dist_sq_exec(-3, -4, 0, 0), 25);
    assert_eq!(dist_sq_exec(10, 10, 10, 10), 0);
}

#[test]
fn displacement_splits_speed_by_heading() {
    // Heading (3, 4), speed 5 units per second, for one second.
    let v = Velocity::new(5_000, 3, 4);
    assert_eq!(displacement(&v, 1_000), (3_000, 4_000));
    // A negative heading moves the other way.
    let v2 = Velocity::new(5_000, -3, 4);
    assert_eq!(displacement(&v2, 1_000), (-3_000, 4_000));
    // A zero heading goes nowhere.
    let v3 = Velocity::new(5_000, 0, 0);
    assert_eq!(displacement(&v3, 1_000), (0, 0));
    // Half the frame, half the distance.
    assert_eq!(displacement(&v, 500), (1_500, 2_000));
}
