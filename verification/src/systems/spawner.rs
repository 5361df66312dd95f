//! Spawning: a spawner whose cooldown has elapsed materializes one hostile
//! at its own position, aimed at the waypoint with sequence id 0, resets
//! its cooldown and counts its stock down, deleting itself once the stock
//! is exhausted.  A spawner that is due to spawn while no waypoint 0
//! exists is a fatal level-data error: the system reports it and leaves
//! the world untouched.

use vstd::prelude::*;
use crate::components::{
    Attacker, Collider, Enemy, Health, Spawner, Velocity, DT_MAX, ENEMY_DAMAGE,
    ENEMY_HALF_EXTENT, ENEMY_HEALTH, ENEMY_SPEED,
};
use crate::nums::sat_sub_u64;
use crate::resources::SimError;
use crate::world::{
    find_waypoint_idx, find_waypoint_last, lemma_find_waypoint_last, lemma_wf_pointwise,
    EntityRec, World, WorldView,
};

verus! {

/// A record the spawning system drives: a live spawner with a position.
pub open spec fn spawner_subject(r: EntityRec) -> bool {
    r.alive && r.spawner is Some && r.transform is Some
}

/// Whether spawner `i` materializes a hostile this frame: its cooldown has
/// elapsed and it has stock left.
pub open spec fn spawner_spawns(ents: Seq<EntityRec>, i: int) -> bool {
    &&& spawner_subject(ents[i])
    &&& ents[i].spawner->0.cooldown == 0
    &&& ents[i].spawner->0.count > 0
}

/// One entity after the spawning system: a cooling spawner counts the
/// frame off; one that spawns resets its cooldown and decrements its
/// stock, deleting itself when the stock hits zero; an exhausted spawner
/// whose cooldown elapses deletes itself without spawning, so the stock
/// never goes negative.
pub open spec fn spawner_rec(ents: Seq<EntityRec>, i: int, dt: u64) -> EntityRec
    recommends
        0 <= i < ents.len(),
{
    let r = ents[i];
    if spawner_subject(r) {
        let sp = r.spawner->0;
        if sp.cooldown > 0 {
            EntityRec {
                spawner: Some(
                    Spawner {
                        cooldown: if sp.cooldown >= dt {
                            (sp.cooldown - dt) as u64
                        } else {
                            0
                        },
                        ..sp
                    },
                ),
                ..r
            }
        } else if sp.count > 0 {
            let count1 = (sp.count - 1) as u32;
            EntityRec {
                alive: count1 > 0,
                spawner: Some(Spawner { cooldown: sp.seconds_to_spawn, count: count1, ..sp }),
                ..r
            }
        } else {
            EntityRec { alive: false, ..r }
        }
    } else {
        r
    }
}

/// The hostile a spawner materializes: at the spawner's position, of the
/// spawner's configured faction and look, moving forward at the fixed
/// enemy speed, armed and breakable, pathing from waypoint entity
/// `wp_entity`.
pub open spec fn hostile_rec(s: EntityRec, wp_entity: u64, id: u64) -> EntityRec {
    EntityRec {
        id,
        alive: true,
        transform: s.transform,
        velocity: Some(Velocity { speed: ENEMY_SPEED, dir_x: 1, dir_y: 0 }),
        faction: Some(s.spawner->0.spawn_faction),
        drawable: Some(s.spawner->0.spawn_drawable),
        shooter: None,
        collider: Some(
            Collider { half_width: ENEMY_HALF_EXTENT, half_height: ENEMY_HALF_EXTENT },
        ),
        projectile: None,
        attacker: Some(Attacker { damage: ENEMY_DAMAGE }),
        health: Some(Health { current_hp: ENEMY_HEALTH }),
        spawner: None,
        waypoint: None,
        enemy: Some(Enemy { current_waypoint: wp_entity }),
        base: None,
    }
}

/// How many spawners among the first `i` spawn this frame.
pub open spec fn spawns_upto(ents: Seq<EntityRec>, i: int) -> nat
    decreases i,
{
    if i <= 0 {
        0
    } else {
        spawns_upto(ents, i - 1) + if spawner_spawns(ents, i - 1) {
            1 as nat
        } else {
            0 as nat
        }
    }
}

/// At most one hostile per spawner.
pub proof fn lemma_spawns_upto_bound(ents: Seq<EntityRec>, i: int)
    requires
        0 <= i,
    ensures
        spawns_upto(ents, i) <= i,
    decreases i,
{
    if i > 0 {
        lemma_spawns_upto_bound(ents, i - 1);
    }
}

/// The hostiles the first `i` spawners materialize, in store order, with
/// consecutive ids from `base`, all pathing from waypoint entity
/// `wp_entity`.
pub open spec fn spawn_seq(ents: Seq<EntityRec>, i: int, base: u64, wp_entity: u64) -> Seq<
    EntityRec,
>
    decreases i,
{
    if i <= 0 {
        Seq::empty()
    } else {
        spawn_seq(ents, i - 1, base, wp_entity) + if spawner_spawns(ents, i - 1) {
            seq![hostile_rec(ents[i - 1], wp_entity, (base + spawns_upto(ents, i - 1)) as u64)]
        } else {
            Seq::empty()
        }
    }
}

/// The entity id of the waypoint with sequence id 0, when one exists.
pub open spec fn wp0_entity(ents: Seq<EntityRec>) -> u64 {
    match find_waypoint_last(ents, 0) {
        Some(wi) => ents[wi].id,
        None => 0,
    }
}

/// The spawning error of the world, if any: a spawner is due to spawn and
/// no live waypoint carries sequence id 0.
pub open spec fn spawner_err(v: WorldView) -> Option<SimError> {
    if (exists|i: int| 0 <= i < v.ents.len() && spawner_spawns(v.ents, i))
        && find_waypoint_last(v.ents, 0) is None {
        Some(SimError::MissingWaypoint { id: 0 })
    } else {
        None
    }
}

/// The world after an error-free run of the spawning system: cooldowns
/// and stocks advance per `spawner_rec`, and each spawn defers one
/// hostile under a fresh id.
pub open spec fn spawner_spec(v: WorldView, dt: u64) -> WorldView {
    WorldView {
        ents: Seq::new(v.ents.len(), |i: int| spawner_rec(v.ents, i, dt)),
        pending: v.pending + spawn_seq(v.ents, v.ents.len() as int, v.next_id, wp0_entity(
            v.ents)),
        next_id: (v.next_id + spawns_upto(v.ents, v.ents.len() as int)) as u64,
        ..v
    }
}

/// Spawning changes only spawner stocks and cooldowns and defers hostile
/// creations, per `spawner_spec`, or reports the missing waypoint and
/// changes nothing.
pub struct SpawnerSystem;

impl SpawnerSystem {
    /// Run the spawning system for one frame.
    pub fn run(w: &mut World, dt: u64) -> (r: Result<(), SimError>)
        requires
            old(w)@.wf(),
            dt <= DT_MAX,
            old(w)@.next_id + old(w)@.ents.len() <= u64::MAX,
        ensures
            match r {
                Ok(()) => spawner_err(old(w)@) is None && final(w)@ == spawner_spec(old(w)@, dt)
                    && final(w)@.wf(),
                Err(e) => spawner_err(old(w)@) == Some(e) && final(w)@ == old(w)@,
            },
    {
        let ghost v0 = old(w)@;
        let wp_found = find_waypoint_idx(&w.ents, 0);
        proof {
            lemma_find_waypoint_last(v0.ents, 0);
        }
        let wp_entity: u64 = match wp_found {
            Some(wi) => w.ents[wi].id,
            None => {
                // No waypoint 0: fatal if any spawner is due, else nothing
                // will spawn this frame.
                let mut i: usize = 0;
                while i < w.ents.len()
                    invariant
                        v0.wf(),
                        w@ == v0,
                        i <= v0.ents.len(),
                        find_waypoint_last(v0.ents, 0) is None,
                        forall|j: int| 0 <= j < i ==> !spawner_spawns(v0.ents, j),
                    decreases v0.ents.len() - i,
                {
                    let r = w.ents[i];
                    if r.alive && r.spawner.is_some() && r.transform.is_some() {
                        let sp = r.spawner.unwrap();
                        if sp.cooldown == 0 && sp.count > 0 {
                            proof {
                                assert(spawner_spawns(v0.ents, i as int));
                                assert(exists|j: int|
                                    0 <= j < v0.ents.len() && spawner_spawns(v0.ents, j));
                                assert(spawner_err(v0) == Some(
                                    SimError::MissingWaypoint { id: 0 },
                                ));
                            }
                            return Err(SimError::MissingWaypoint { id: 0 });
                        }
                    }
                    i = i + 1;
                }
                0
            },
        };
        let ghost no_wp = find_waypoint_last(v0.ents, 0) is None;
        proof {
            if no_wp {
                assert(forall|j: int|
                    0 <= j < v0.ents.len() ==> !spawner_spawns(v0.ents, j));
            } else {
                assert(wp_entity == wp0_entity(v0.ents));
            }
        }
        let mut k: usize = 0;
        while k < w.ents.len()
            invariant
                v0.wf(),
                w@.wf(),
                dt <= DT_MAX,
                v0.next_id + v0.ents.len() <= u64::MAX,
                k <= v0.ents.len(),
                w@.ents.len() == v0.ents.len(),
                no_wp == (find_waypoint_last(v0.ents, 0) is None),
                no_wp ==> forall|j: int| 0 <= j < v0.ents.len() ==> !spawner_spawns(v0.ents, j),
                !no_wp ==> wp_entity == wp0_entity(v0.ents),
                v0 == (WorldView {
                    ents: v0.ents,
                    pending: v0.pending,
                    next_id: v0.next_id,
                    ..w@
                }),
                w@.next_id == v0.next_id + spawns_upto(v0.ents, k as int),
                w@.pending == v0.pending + spawn_seq(v0.ents, k as int, v0.next_id, wp0_entity(
                    v0.ents)),
                forall|j: int| 0 <= j < k ==> #[trigger] w@.ents[j] == spawner_rec(v0.ents, j, dt),
                forall|j: int| k <= j < v0.ents.len() ==> #[trigger] w@.ents[j] == v0.ents[j],
            decreases v0.ents.len() - k,
        {
            let r = w.ents[k];
            proof {
                assert(r == v0.ents[k as int]);
                assert(r.wf());
                lemma_spawns_upto_bound(v0.ents, k as int);
            }
            let ghost w_before = w@;
            if r.alive && r.spawner.is_some() && r.transform.is_some() {
                let sp = r.spawner.unwrap();
                if sp.cooldown > 0 {
                    let cooled = EntityRec {
                        spawner: Some(
                            Spawner { cooldown: sat_sub_u64(sp.cooldown, dt), ..sp },
                        ),
                        ..r
                    };
                    w.ents.set(k, cooled);
                    proof {
                        assert(cooled == spawner_rec(v0.ents, k as int, dt));
                        lemma_wf_pointwise(w_before, w@);
                        assert(w@.pending =~= v0.pending + spawn_seq(
                            v0.ents,
                            k as int + 1,
                            v0.next_id,
                            wp0_entity(v0.ents),
                        ));
                    }
                } else if sp.count > 0 {
                    proof {
                        assert(spawner_spawns(v0.ents, k as int));
                        assert(!no_wp);
                    }
                    let count1 = sp.count - 1;
                    let advanced = EntityRec {
                        alive: count1 > 0,
                        spawner: Some(
                            Spawner { cooldown: sp.seconds_to_spawn, count: count1, ..sp },
                        ),
                        ..r
                    };
                    w.ents.set(k, advanced);
                    proof {
                        assert(advanced == spawner_rec(v0.ents, k as int, dt));
                        lemma_wf_pointwise(w_before, w@);
                    }
                    let hostile = EntityRec {
                        transform: r.transform,
                        velocity: Some(
                            Velocity { speed: ENEMY_SPEED, dir_x: 1, dir_y: 0 },
                        ),
                        faction: Some(sp.spawn_faction),
                        drawable: Some(sp.spawn_drawable),
                        collider: Some(
                            Collider {
                                half_width: ENEMY_HALF_EXTENT,
                                half_height: ENEMY_HALF_EXTENT,
                            },
                        ),
                        attacker: Some(Attacker { damage: ENEMY_DAMAGE }),
                        health: Some(Health { current_hp: ENEMY_HEALTH }),
                        enemy: Some(Enemy { current_waypoint: wp_entity }),
                        ..EntityRec::empty(0)
                    };
                    let _ = w.defer_create(hostile);
                    proof {
                        let base = v0.next_id;
                        let nid = (base + spawns_upto(v0.ents, k as int)) as u64;
                        assert(w@.pending.last() == hostile_rec(
                            v0.ents[k as int],
                            wp0_entity(v0.ents),
                            nid,
                        ));
                        assert(w@.pending =~= v0.pending + spawn_seq(
                            v0.ents,
                            k as int + 1,
                            base,
                            wp0_entity(v0.ents),
                        ));
                    }
                } else {
                    let exhausted = EntityRec { alive: false, ..r };
                    w.ents.set(k, exhausted);
                    proof {
                        assert(exhausted == spawner_rec(v0.ents, k as int, dt));
                        lemma_wf_pointwise(w_before, w@);
                        assert(w@.pending =~= v0.pending + spawn_seq(
                            v0.ents,
                            k as int + 1,
                            v0.next_id,
                            wp0_entity(v0.ents),
                        ));
                    }
                }
            } else {
                proof {
                    assert(w@.ents[k as int] == spawner_rec(v0.ents, k as int, dt));
                    assert(w@.pending =~= v0.pending + spawn_seq(
                        v0.ents,
                        k as int + 1,
                        v0.next_id,
                        wp0_entity(v0.ents),
                    ));
                }
            }
            k = k + 1;
        }
        proof {
            assert(final(w)@.ents =~= spawner_spec(v0, dt).ents);
            assert(final(w)@ =~= spawner_spec(v0, dt));
        }
        Ok(())
    }
}

} // verus!
