//! One simulation tick: apply the deferred mutations, clear the transient
//! event buffers, and — while the game is still playing — run the systems
//! in their fixed dependency order, then apply what they deferred.
//!
//! A level-data error from pathing or spawning stops the tick where it
//! occurred and is reported instead of crashing.

use vstd::prelude::*;
use crate::components::DT_MAX;
use crate::resources::{PlayState, SimError};
use crate::systems::attack::{attack_spec, lemma_attack_fold_len, AttackSystem};
use crate::systems::collision::{collision_spec, CollisionSystem};
use crate::systems::death::{death_spec, DeathSystem};
use crate::systems::enemy_ai::{ai_err, ai_spec, EnemyAi};
use crate::systems::movement::{movement_spec, UpdatePosition};
use crate::systems::shooter::{lemma_shots_upto_bound, shooter_spec, ShooterSystem};
use crate::systems::spawner::{lemma_spawns_upto_bound, spawner_err, spawner_spec, SpawnerSystem};
use crate::systems::win::{win_spec, WinSystem};
use crate::world::{lemma_surviving, World, WorldView};

verus! {

/// The world a tick produces, or the state it stopped in and the
/// level-data error that stopped it.
pub open spec fn tick_spec(v: WorldView, dt: u64) -> Result<WorldView, (WorldView, SimError)> {
    let v1 = v.maintain_spec().clear_events_spec();
    if v1.play_state != PlayState::Play {
        Ok(v1)
    } else {
        match ai_err(v1) {
            Some(e) => Err((v1, e)),
            None => {
                let v2 = ai_spec(v1);
                let v3 = shooter_spec(v2, dt);
                let v4 = movement_spec(v3, dt);
                let v5 = collision_spec(v4);
                let v6 = attack_spec(v5);
                match spawner_err(v6) {
                    Some(e) => Err((v6, e)),
                    None => {
                        let v7 = spawner_spec(v6, dt);
                        let v8 = win_spec(death_spec(v7));
                        Ok(v8.maintain_spec())
                    },
                }
            },
        }
    }
}

impl World {
    /// Advance the simulation by one frame of `dt` milliseconds.
    ///
    /// The id headroom in the precondition leaves room for the at most one
    /// projectile per shooter and one hostile per spawner this tick can
    /// allocate.
    pub fn tick(&mut self, dt: u64) -> (r: Result<(), SimError>)
        requires
            old(self)@.wf(),
            dt <= DT_MAX,
            old(self)@.next_id + 2 * (old(self)@.ents.len() + old(self)@.pending.len())
                <= u64::MAX,
        ensures
            match r {
                Ok(()) => tick_spec(old(self)@, dt) matches Ok(v) && final(self)@ == v && final(
                    self)@.wf(),
                Err(e) => tick_spec(old(self)@, dt) matches Err(p) && p.1 == e && final(self)@
                    == p.0 && final(self)@.wf(),
            },
    {
        let ghost v0 = old(self)@;
        self.maintain();
        self.clear_events();
        let ghost v1 = self@;
        proof {
            lemma_surviving(v0.ents);
            assert(v1.ents.len() <= v0.ents.len() + v0.pending.len());
        }
        if !matches!(self.play_state, PlayState::Play) {
            return Ok(());
        }
        match EnemyAi::run(self) {
            Err(e) => {
                return Err(e);
            },
            Ok(()) => {},
        }
        let ghost v2 = self@;
        proof {
            assert(v2.ents.len() == v1.ents.len() && v2.next_id == v1.next_id);
        }
        ShooterSystem::run(self, dt);
        let ghost v3 = self@;
        proof {
            lemma_shots_upto_bound(v2.ents, v2.ents.len() as int);
            assert(v3.next_id <= v1.next_id + v1.ents.len());
            assert(v3.ents.len() == v1.ents.len());
        }
        UpdatePosition::run(self, dt);
        CollisionSystem::run(self);
        AttackSystem::run(self);
        let ghost v6 = self@;
        proof {
            let v5 = collision_spec(movement_spec(v3, dt));
            lemma_attack_fold_len(v5.ents, v5.death_events, v5.collision_events,
                v5.collision_events.len() as int);
            assert(v6.ents.len() == v1.ents.len());
            assert(v6.next_id == v3.next_id);
        }
        match SpawnerSystem::run(self, dt) {
            Err(e) => {
                return Err(e);
            },
            Ok(()) => {},
        }
        DeathSystem::run(self);
        WinSystem::run(self);
        self.maintain();
        Ok(())
    }
}

} // verus!
