//! Per-system behavior on concrete worlds: movement integration, target
//! acquisition and projectile spawning, strict overlap, combat saturation
//! and idempotence, spawning and pathing.

use isengard_returns::components::{
    Attacker, Collider, Drawable, Enemy, Faction, Health, Shooter, Spawner, Transform, Velocity,
};
use isengard_returns::grid::Grid;
use isengard_returns::resources::{CollisionEvent, SimError};
use isengard_returns::systems::attack::AttackSystem;
use isengard_returns::systems::collision::CollisionSystem;
use isengard_returns::systems::enemy_ai::EnemyAi;
use isengard_returns::systems::movement::UpdatePosition;
use isengard_returns::systems::shooter::ShooterSystem;
use isengard_returns::systems::spawner::SpawnerSystem;
use isengard_returns::world::{EntityRec, World};

fn mk_world() -> World {
    World::new(Grid::new(8, 8, 32_000))
}

#[test]
fn movement_integrates_velocity_straight() {
    let mut w = mk_world();
    // 100 units per second, heading straight right, for one second.
    w.create_now(EntityRec {
        transform: Some(Transform::new(0, 0)),
        velocity: Some(Velocity::new(100_000, 1, 0)),
        ..EntityRec::empty(0)
    });
    UpdatePosition::run(&mut w, 1_000);
    let t = w.ents[0].transform.unwrap();
    assert_eq!(t.x, 100_000);
    assert_eq!(t.y, 0);
}

#[test]
fn movement_integrates_velocity_diagonal() {
    let mut w = mk_world();
    // Heading (3, 4) has length 5: the components split the speed 3:4.
    w.create_now(EntityRec {
        transform: Some(Transform::new(1_000, 2_000)),
        velocity: Some(Velocity::new(5_000, 3, 4)),
        ..EntityRec::empty(0)
    });
    UpdatePosition::run(&mut w, 1_000);
    let t = w.ents[0].transform.unwrap();
    assert_eq!(t.x, 1_000 + 3_000);
    assert_eq!(t.y, 2_000 + 4_000);
}

#[test]
fn movement_ignores_zero_heading_and_dead_records() {
    let mut w = mk_world();
    w.create_now(EntityRec {
        transform: Some(Transform::new(7, 9)),
        velocity: Some(Velocity::new(100_000, 0, 0)),
        ..EntityRec::empty(0)
    });
    UpdatePosition::run(&mut w, 1_000);
    let t = w.ents[0].transform.unwrap();
    assert_eq!((t.x, t.y), (7, 9));
}

#[test]
fn shooter_fires_at_first_target_in_range() {
    let mut w = mk_world();
    // Shooter with radius 100 units, cooldown elapsed; enemy at distance
    // 50 of the opposing faction.
    w.create_now(EntityRec {
        transform: Some(Transform::new(0, 0)),
        faction: Some(Faction::Player),
        shooter: Some(Shooter { seconds_per_attack: 1_000, cooldown: 0, attack_radius: 100_000 }),
        ..EntityRec::empty(0)
    });
    w.create_now(EntityRec {
        transform: Some(Transform::new(50_000, 0)),
        faction: Some(Faction::Enemy),
        ..EntityRec::empty(0)
    });
    ShooterSystem::run(&mut w, 16);
    // Exactly one projectile is deferred, aimed target-minus-source, and
    // the cooldown is reset to the attack period.
    assert_eq!(w.pending.len(), 1);
    let p = &w.pending[0];
    assert!(p.projectile.is_some());
    assert_eq!(p.faction, Some(Faction::Player));
    let v = p.velocity.unwrap();
    assert_eq!(v.speed, 300_000);
    assert_eq!((v.dir_x, v.dir_y), (50_000, 0));
    assert_eq!(p.transform.unwrap(), Transform::new(0, 0));
    assert!(p.attacker.is_some());
    assert_eq!(w.ents[0].shooter.unwrap().cooldown, 1_000);
}

#[test]
fn shooter_holds_fire_out_of_range_or_same_faction() {
    let mut w = mk_world();
    w.create_now(EntityRec {
        transform: Some(Transform::new(0, 0)),
        faction: Some(Faction::Player),
        shooter: Some(Shooter { seconds_per_attack: 1_000, cooldown: 0, attack_radius: 100_000 }),
        ..EntityRec::empty(0)
    });
    // Same faction nearby, opposing faction out of range.
    w.create_now(EntityRec {
        transform: Some(Transform::new(10_000, 0)),
        faction: Some(Faction::Player),
        ..EntityRec::empty(0)
    });
    w.create_now(EntityRec {
        transform: Some(Transform::new(100_001, 0)),
        faction: Some(Faction::Enemy),
        ..EntityRec::empty(0)
    });
    ShooterSystem::run(&mut w, 16);
    assert_eq!(w.pending.len(), 0);
    assert_eq!(w.ents[0].shooter.unwrap().cooldown, 0);
}

#[test]
fn shooter_cooldown_counts_down_and_saturates() {
    let mut w = mk_world();
    w.create_now(EntityRec {
        transform: Some(Transform::new(0, 0)),
        faction: Some(Faction::Player),
        shooter: Some(Shooter { seconds_per_attack: 1_000, cooldown: 40, attack_radius: 100_000 }),
        ..EntityRec::empty(0)
    });
    w.create_now(EntityRec {
        transform: Some(Transform::new(1_000, 0)),
        faction: Some(Faction::Enemy),
        ..EntityRec::empty(0)
    });
    ShooterSystem::run(&mut w, 16);
    assert_eq!(w.ents[0].shooter.unwrap().cooldown, 24);
    assert_eq!(w.pending.len(), 0);
    ShooterSystem::run(&mut w, 100);
    // The decrement saturates at zero instead of underflowing.
    assert_eq!(w.ents[0].shooter.unwrap().cooldown, 0);
    assert_eq!(w.pending.len(), 0);
    ShooterSystem::run(&mut w, 16);
    assert_eq!(w.pending.len(), 1);
}

fn collider_at(x: i64, y: i64, half: i64, faction: Faction) -> EntityRec {
    EntityRec {
        transform: Some(Transform::new(x, y)),
        faction: Some(faction),
        collider: Some(Collider::new(half, half)),
        ..EntityRec::empty(0)
    }
}

#[test]
fn collision_emits_both_ordered_events() {
    let mut w = mk_world();
    let a = w.create_now(collider_at(0, 0, 10_000, Faction::Player));
    let b = w.create_now(collider_at(15_000, 0, 10_000, Faction::Enemy));
    CollisionSystem::run(&mut w);
    assert_eq!(w.collision_events.len(), 2);
    assert_eq!(w.collision_events[0].entity_a, a);
    assert_eq!(w.collision_events[0].entity_b, b);
    assert_eq!(w.collision_events[1].entity_a, b);
    assert_eq!(w.collision_events[1].entity_b, a);
}

#[test]
fn collision_edge_touching_does_not_count() {
    let mut w = mk_world();
    w.create_now(collider_at(0, 0, 10_000, Faction::Player));
    // Right edge of the first exactly meets the left edge of the second.
    w.create_now(collider_at(20_000, 0, 10_000, Faction::Enemy));
    CollisionSystem::run(&mut w);
    assert_eq!(w.collision_events.len(), 0);
}

#[test]
fn collision_ignores_same_faction() {
    let mut w = mk_world();
    w.create_now(collider_at(0, 0, 10_000, Faction::Enemy));
    w.create_now(collider_at(5_000, 0, 10_000, Faction::Enemy));
    CollisionSystem::run(&mut w);
    assert_eq!(w.collision_events.len(), 0);
}

#[test]
fn attack_applies_damage_and_consumes_attacker() {
    let mut w = mk_world();
    let a = w.create_now(EntityRec {
        attacker: Some(Attacker { damage: 1 }),
        ..EntityRec::empty(0)
    });
    let b = w.create_now(EntityRec {
        health: Some(Health { current_hp: 5 }),
        ..EntityRec::empty(0)
    });
    w.collision_events.push(CollisionEvent { entity_a: a, entity_b: b });
    AttackSystem::run(&mut w);
    assert_eq!(w.ents[1].health.unwrap().current_hp, 4);
    // The attacker is consumed: marked dead at once, removed by maintain.
    assert!(!w.ents[0].alive);
    assert_eq!(w.death_events.len(), 1);
    assert_eq!(w.death_events[0].entity, a);
    w.maintain();
    assert_eq!(w.ents.len(), 1);
    assert_eq!(w.ents[0].id, b);
}

#[test]
fn attack_damage_saturates_at_zero() {
    let mut w = mk_world();
    let a = w.create_now(EntityRec {
        attacker: Some(Attacker { damage: 10 }),
        ..EntityRec::empty(0)
    });
    let b = w.create_now(EntityRec {
        health: Some(Health { current_hp: 3 }),
        ..EntityRec::empty(0)
    });
    w.collision_events.push(CollisionEvent { entity_a: a, entity_b: b });
    AttackSystem::run(&mut w);
    // Health never goes negative: ten damage on three hit points is zero.
    assert_eq!(w.ents[1].health.unwrap().current_hp, 0);
    assert!(!w.ents[1].alive);
    assert_eq!(w.death_events.len(), 2);
    assert_eq!(w.death_events[0].entity, a);
    assert_eq!(w.death_events[1].entity, b);
}

#[test]
fn attack_duplicate_event_is_idempotent() {
    let mut w = mk_world();
    let a = w.create_now(EntityRec {
        attacker: Some(Attacker { damage: 1 }),
        ..EntityRec::empty(0)
    });
    let b = w.create_now(EntityRec {
        health: Some(Health { current_hp: 1 }),
        ..EntityRec::empty(0)
    });
    // The same event twice, as the symmetric duplicate would arrive.
    w.collision_events.push(CollisionEvent { entity_a: a, entity_b: b });
    w.collision_events.push(CollisionEvent { entity_a: a, entity_b: b });
    AttackSystem::run(&mut w);
    // One resolution only: two death events, not four, and no
    // double-deletion.
    assert_eq!(w.death_events.len(), 2);
    assert_eq!(w.ents[1].health.unwrap().current_hp, 0);
}

#[test]
fn attack_skips_events_of_deleted_entities() {
    let mut w = mk_world();
    // Mutually lethal pair: both attacker and health on each side, with
    // both ordered events. The first event consumes a and kills b; the
    // symmetric event references dead entities and is skipped, so b is
    // not consumed as an attacker.
    let a = w.create_now(EntityRec {
        attacker: Some(Attacker { damage: 1 }),
        health: Some(Health { current_hp: 1 }),
        ..EntityRec::empty(0)
    });
    let b = w.create_now(EntityRec {
        attacker: Some(Attacker { damage: 1 }),
        health: Some(Health { current_hp: 1 }),
        ..EntityRec::empty(0)
    });
    w.collision_events.push(CollisionEvent { entity_a: a, entity_b: b });
    w.collision_events.push(CollisionEvent { entity_a: b, entity_b: a });
    AttackSystem::run(&mut w);
    assert!(!w.ents[0].alive);
    assert!(!w.ents[1].alive);
    assert_eq!(w.ents[0].health.unwrap().current_hp, 1);
    assert_eq!(w.ents[1].health.unwrap().current_hp, 0);
    assert_eq!(w.death_events.len(), 2);
}

#[test]
fn spawner_spawns_one_hostile_and_self_destructs() {
    let mut w = mk_world();
    let wp = w.create_waypoint(200_000, 0, 0);
    let sp = w.create_now(EntityRec {
        transform: Some(Transform::new(32_000, 32_000)),
        spawner: Some(Spawner {
            spawn_faction: Faction::Enemy,
            spawn_drawable: Drawable::Enemy,
            count: 1,
            seconds_to_spawn: 0,
            cooldown: 0,
        }),
        ..EntityRec::empty(0)
    });
    assert_eq!(SpawnerSystem::run(&mut w, 16), Ok(()));
    // One hostile deferred, referencing the waypoint with sequence id 0.
    assert_eq!(w.pending.len(), 1);
    let h = &w.pending[0];
    assert_eq!(h.enemy.unwrap().current_waypoint, wp);
    assert_eq!(h.faction, Some(Faction::Enemy));
    assert_eq!(h.health.unwrap().current_hp, 5);
    assert_eq!(h.attacker.unwrap().damage, 1);
    assert_eq!(h.transform.unwrap(), Transform::new(32_000, 32_000));
    // The spawner deleted itself the same tick, deferred until maintain,
    // and its count never went negative.
    let srec = w.ents.iter().find(|r| r.id == sp).unwrap();
    assert!(!srec.alive);
    assert_eq!(srec.spawner.unwrap().count, 0);
    w.maintain();
    assert!(w.ents.iter().all(|r| r.id != sp));
    assert!(w.ents.iter().any(|r| r.enemy.is_some()));
}

#[test]
fn spawner_without_waypoint_zero_is_fatal() {
    let mut w = mk_world();
    w.create_now(EntityRec {
        transform: Some(Transform::new(0, 0)),
        spawner: Some(Spawner::default()),
        ..EntityRec::empty(0)
    });
    assert_eq!(SpawnerSystem::run(&mut w, 16), Err(SimError::MissingWaypoint { id: 0 }));
    // The store is untouched.
    assert_eq!(w.pending.len(), 0);
    assert_eq!(w.ents[0].spawner.unwrap().count, 5);
}

#[test]
fn ai_repoints_heading_and_keeps_speed() {
    let mut w = mk_world();
    let wp = w.create_waypoint(100_000, 0, 0);
    w.create_now(EntityRec {
        transform: Some(Transform::new(0, 0)),
        velocity: Some(Velocity::new(60_000, 0, 1)),
        enemy: Some(Enemy { current_waypoint: wp }),
        ..EntityRec::empty(0)
    });
    assert_eq!(EnemyAi::run(&mut w), Ok(()));
    let v = w.ents[1].velocity.unwrap();
    // Only the direction changed; the travel speed is invariant.
    assert_eq!(v.speed, 60_000);
    assert_eq!((v.dir_x, v.dir_y), (100_000, 0));
    assert_eq!(w.ents[1].enemy.unwrap().current_waypoint, wp);
}

#[test]
fn ai_advances_to_successor_waypoint_on_arrival() {
    let mut w = mk_world();
    // Within the arrival distance (10 units) of waypoint 0.
    let wp0 = w.create_waypoint(5_000, 0, 0);
    let wp1 = w.create_waypoint(300_000, 0, 1);
    w.create_now(EntityRec {
        transform: Some(Transform::new(0, 0)),
        velocity: Some(Velocity::new(60_000, 1, 0)),
        enemy: Some(Enemy { current_waypoint: wp0 }),
        ..EntityRec::empty(0)
    });
    assert_eq!(EnemyAi::run(&mut w), Ok(()));
    let e = w.ents[2].enemy.unwrap();
    assert_eq!(e.current_waypoint, wp1);
    let v = w.ents[2].velocity.unwrap();
    assert_eq!(v.speed, 60_000);
    assert_eq!((v.dir_x, v.dir_y), (300_000, 0));
}

#[test]
fn ai_missing_successor_waypoint_is_fatal() {
    let mut w = mk_world();
    let wp0 = w.create_waypoint(5_000, 0, 0);
    w.create_now(EntityRec {
        transform: Some(Transform::new(0, 0)),
        velocity: Some(Velocity::new(60_000, 1, 0)),
        enemy: Some(Enemy { current_waypoint: wp0 }),
        ..EntityRec::empty(0)
    });
    assert_eq!(EnemyAi::run(&mut w), Err(SimError::MissingWaypoint { id: 1 }));
    // The store is untouched.
    assert_eq!(w.ents[1].velocity.unwrap().dir_x, 1);
}

#[test]
fn ai_dangling_waypoint_reference_is_fatal() {
    let mut w = mk_world();
    w.create_now(EntityRec {
        transform: Some(Transform::new(0, 0)),
        velocity: Some(Velocity::new(60_000, 1, 0)),
        enemy: Some(Enemy { current_waypoint: 999 }),
        ..EntityRec::empty(0)
    });
    assert_eq!(EnemyAi::run(&mut w), Err(SimError::DanglingWaypoint { entity: 999 }));
}

#[test]
fn shooter_picks_first_in_store_order_not_nearest() {
    let mut w = mk_world();
    w.create_now(EntityRec {
        transform: Some(Transform::new(0, 0)),
        faction: Some(Faction::Player),
        shooter: Some(Shooter { seconds_per_attack: 1_000, cooldown: 0, attack_radius: 100_000 }),
        ..EntityRec::empty(0)
    });
    // Both in range; the farther one comes first in store order and is
    // the one fired at.
    w.create_now(EntityRec {
        transform: Some(Transform::new(90_000, 0)),
        faction: Some(Faction::Enemy),
        ..EntityRec::empty(0)
    });
    w.create_now(EntityRec {
        transform: Some(Transform::new(10_000, 0)),
        faction: Some(Faction::Enemy),
        ..EntityRec::empty(0)
    });
    ShooterSystem::run(&mut w, 16);
    assert_eq!(w.pending.len(), 1);
    assert_eq!(w.pending[0].velocity.unwrap().dir_x, 90_000);
}
