//! Whole-tick behavior: pipeline order, deferred visibility, the win and
//! lose conditions, terminal states, currency, and level reset.

use isengard_returns::components::{
    Attacker, Collider, Enemy, Faction, Health, Spawner, Transform, Drawable,
};
use isengard_returns::grid::Grid;
use isengard_returns::resources::{PlayState, SimError};
use isengard_returns::world::{EntityRec, World};

fn mk_world() -> World {
    World::new(Grid::new(8, 8, 32_000))
}

#[test]
fn empty_world_ticks_without_change() {
    let mut w = mk_world();
    assert_eq!(w.tick(16), Ok(()));
    assert_eq!(w.play_state, PlayState::Play);
    assert_eq!(w.build_resources.bits, 30);
    assert_eq!(w.ents.len(), 0);
}

#[test]
fn win_requires_a_base_and_no_hostiles_or_spawners() {
    // A lone base wins at once.
    let mut w = mk_world();
    w.create_base(64_000, 64_000, 3);
    assert_eq!(w.tick(16), Ok(()));
    assert_eq!(w.play_state, PlayState::Win);
    // No base: no win, even with nothing hostile around.
    let mut w2 = mk_world();
    assert_eq!(w2.tick(16), Ok(()));
    assert_eq!(w2.play_state, PlayState::Play);
}

#[test]
fn no_win_while_a_spawner_remains() {
    // The starting state of a level — one base, one spawner, no enemies —
    // must not win.
    let mut w = mk_world();
    w.create_base(64_000, 64_000, 3);
    w.create_waypoint(200_000, 0, 0);
    w.create_spawner(150_000, 150_000);
    assert_eq!(w.tick(16), Ok(()));
    assert_eq!(w.play_state, PlayState::Play);
}

#[test]
fn no_win_while_an_enemy_remains() {
    let mut w = mk_world();
    w.create_base(64_000, 64_000, 3);
    let wp = w.create_waypoint(200_000, 0, 0);
    w.create_now(EntityRec {
        transform: Some(Transform::new(200_000, 200_000)),
        velocity: Some(isengard_returns::components::Velocity::new(60_000, 1, 0)),
        faction: Some(Faction::Enemy),
        enemy: Some(Enemy { current_waypoint: wp }),
        health: Some(Health { current_hp: 5 }),
        ..EntityRec::empty(0)
    });
    assert_eq!(w.tick(16), Ok(()));
    assert_eq!(w.play_state, PlayState::Play);
}

#[test]
fn win_fires_on_the_tick_after_the_last_hostile_dies() {
    let mut w = mk_world();
    w.create_base(10_000, 300_000, 3);
    let wp = w.create_waypoint(310_000, 0, 0);
    // A hostile with one hit point, and a player projectile on top of it.
    w.create_now(EntityRec {
        transform: Some(Transform::new(200_000, 200_000)),
        faction: Some(Faction::Enemy),
        collider: Some(Collider::new(20_000, 20_000)),
        health: Some(Health { current_hp: 1 }),
        enemy: Some(Enemy { current_waypoint: wp }),
        ..EntityRec::empty(0)
    });
    w.create_now(EntityRec {
        transform: Some(Transform::new(200_000, 200_000)),
        faction: Some(Faction::Player),
        collider: Some(Collider::new(4_000, 4_000)),
        attacker: Some(Attacker { damage: 1 }),
        ..EntityRec::empty(0)
    });
    // The killing tick: the enemy record is still in the store when the
    // win check runs, so the game keeps playing.
    assert_eq!(w.tick(16), Ok(()));
    assert_eq!(w.play_state, PlayState::Play);
    // The bounty was credited for the enemy's death.
    assert_eq!(w.build_resources.bits, 35);
    // The next tick sees the cleaned store and wins.
    assert_eq!(w.tick(16), Ok(()));
    assert_eq!(w.play_state, PlayState::Win);
}

#[test]
fn lose_fires_exactly_when_a_base_death_is_processed() {
    let mut w = mk_world();
    w.create_base(100_000, 100_000, 3);
    // An enemy attacker overlapping the base, lethal to its one hit
    // point.
    w.create_now(EntityRec {
        transform: Some(Transform::new(100_000, 100_000)),
        faction: Some(Faction::Enemy),
        collider: Some(Collider::new(4_000, 4_000)),
        attacker: Some(Attacker { damage: 1 }),
        ..EntityRec::empty(0)
    });
    assert_eq!(w.play_state, PlayState::Play);
    assert_eq!(w.tick(16), Ok(()));
    assert_eq!(w.play_state, PlayState::Lose);
}

#[test]
fn lose_does_not_fire_without_a_base_death() {
    let mut w = mk_world();
    w.create_base(100_000, 100_000, 3);
    // A hostile far away: no collision, no death, no loss — and its
    // presence keeps the game from being won.
    w.create_now(EntityRec {
        transform: Some(Transform::new(250_000, 250_000)),
        faction: Some(Faction::Enemy),
        collider: Some(Collider::new(4_000, 4_000)),
        attacker: Some(Attacker { damage: 1 }),
        enemy: Some(Enemy { current_waypoint: 0 }),
        ..EntityRec::empty(0)
    });
    assert_eq!(w.tick(16), Ok(()));
    assert_eq!(w.play_state, PlayState::Play);
}

#[test]
fn terminal_state_skips_the_pipeline() {
    let mut w = mk_world();
    w.play_state = PlayState::Lose;
    let wp = w.create_waypoint(200_000, 0, 0);
    w.create_now(EntityRec {
        transform: Some(Transform::new(0, 0)),
        spawner: Some(Spawner {
            spawn_faction: Faction::Enemy,
            spawn_drawable: Drawable::Enemy,
            count: 1,
            seconds_to_spawn: 0,
            cooldown: 0,
        }),
        ..EntityRec::empty(0)
    });
    assert_eq!(w.tick(16), Ok(()));
    // Nothing spawned and nothing changed state: the pipeline did not
    // run.
    assert_eq!(w.play_state, PlayState::Lose);
    assert_eq!(w.ents.len(), 2);
    assert!(w.ents.iter().all(|r| r.enemy.is_none()));
    let _ = wp;
}

#[test]
fn deferred_hostile_is_invisible_until_next_tick() {
    let mut w = mk_world();
    w.create_waypoint(400_000, 0, 0);
    w.create_now(EntityRec {
        transform: Some(Transform::new(0, 0)),
        spawner: Some(Spawner {
            spawn_faction: Faction::Enemy,
            spawn_drawable: Drawable::Enemy,
            count: 2,
            seconds_to_spawn: 5_000,
            cooldown: 0,
        }),
        ..EntityRec::empty(0)
    });
    assert_eq!(w.tick(16), Ok(()));
    // The hostile spawned this tick was applied by the closing maintain.
    assert_eq!(w.ents.len(), 3);
    let h = w.ents.iter().find(|r| r.enemy.is_some()).unwrap();
    assert_eq!(h.health.unwrap().current_hp, 5);
    // The spawner entered its five-second cooldown, counted from the next
    // tick on.
    let sp = w.ents.iter().find(|r| r.spawner.is_some()).unwrap();
    assert_eq!(sp.spawner.unwrap().cooldown, 5_000);
    assert_eq!(sp.spawner.unwrap().count, 1);
    assert_eq!(w.tick(16), Ok(()));
    assert_eq!(w.ents.iter().filter(|r| r.enemy.is_some()).count(), 1);
    let sp2 = w.ents.iter().find(|r| r.spawner.is_some()).unwrap();
    assert_eq!(sp2.spawner.unwrap().cooldown, 5_000 - 16);
}

#[test]
fn tick_reports_missing_waypoint_for_due_spawner() {
    let mut w = mk_world();
    w.create_now(EntityRec {
        transform: Some(Transform::new(0, 0)),
        spawner: Some(Spawner::default()),
        ..EntityRec::empty(0)
    });
    assert_eq!(w.tick(16), Err(SimError::MissingWaypoint { id: 0 }));
}

#[test]
fn reset_restores_the_level_start_state() {
    let mut w = mk_world();
    w.create_base(64_000, 64_000, 3);
    w.build_resources.bits = 7;
    w.play_state = PlayState::Lose;
    w.reset(Grid::new(4, 4, 32_000));
    assert_eq!(w.play_state, PlayState::Play);
    assert_eq!(w.build_resources.bits, 30);
    assert_eq!(w.ents.len(), 0);
    assert_eq!(w.pending.len(), 0);
    assert_eq!(w.grid.width, 4);
}

#[test]
fn full_wave_plays_out_to_victory() {
    // A tower guards a zig-zag waypoint chain; the one-hostile wave walks
    // it, stays in range, and is shot down; the game is then won.
    let mut w = mk_world();
    w.create_base(32_000, 224_000, 99);
    // Waypoints alternate between two points of the path, all within the
    // tower's attack radius.
    for id in 0..10u32 {
        let x = if id % 2 == 0 { 32_000 } else { 160_000 };
        w.create_waypoint(x, 32_000, id);
    }
    w.create_now(EntityRec {
        transform: Some(Transform::new(32_000, 32_000)),
        spawner: Some(Spawner {
            spawn_faction: Faction::Enemy,
            spawn_drawable: Drawable::Enemy,
            count: 1,
            seconds_to_spawn: 10_000,
            cooldown: 0,
        }),
        ..EntityRec::empty(0)
    });
    // Tower at the center of cell (2, 1): world position (80, 48).
    assert!(w.try_build_tower(2, 1));
    let mut won = false;
    for _ in 0..1_500 {
        assert_eq!(w.tick(16), Ok(()));
        if w.play_state == PlayState::Win {
            won = true;
            break;
        }
        assert_ne!(w.play_state, PlayState::Lose);
    }
    assert!(won);
    // The kill paid the bounty on top of the tower's cost.
    assert_eq!(w.build_resources.bits, 30 - 10 + 5);
}
