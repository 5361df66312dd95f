//! Enemy pathing: each hostile heads for its current waypoint, advances to
//! the successor waypoint (current sequence id plus one) on arrival, and
//! repoints its heading without changing its speed.
//!
//! A waypoint reference that does not resolve, or a successor id that no
//! waypoint carries, is a fatal level-data error: the system reports it
//! and leaves the world untouched.

use vstd::prelude::*;
use crate::components::{Enemy, Velocity, ARRIVE_DIST};
use crate::nums::{dist_sq, dist_sq_exec};
use crate::resources::SimError;
use crate::world::{
    find_alive, find_alive_idx, find_waypoint_last, find_waypoint_idx, lemma_wf_pointwise,
    EntityRec, World, WorldView,
};

verus! {

/// A record the pathing system drives: a live enemy with a position and a
/// velocity.
pub open spec fn ai_subject(r: EntityRec) -> bool {
    r.alive && r.enemy is Some && r.transform is Some && r.velocity is Some
}

/// The store index of the waypoint a subject should now head towards, or
/// the level-data error that stops the tick.  Within the arrival distance
/// of the current waypoint, the unit advances to the last live waypoint
/// whose sequence id is the current one plus one.
pub open spec fn ai_target(ents: Seq<EntityRec>, i: int) -> Result<int, SimError>
    recommends
        0 <= i < ents.len(),
        ai_subject(ents[i]),
{
    let r = ents[i];
    let cw = r.enemy->0.current_waypoint;
    match find_alive(ents, cw) {
        None => Err(SimError::DanglingWaypoint { entity: cw }),
        Some(ci) => if ents[ci].transform !is Some {
            Err(SimError::DanglingWaypoint { entity: cw })
        } else {
            let t = r.transform->0;
            let wt = ents[ci].transform->0;
            if dist_sq(t.x as int, t.y as int, wt.x as int, wt.y as int) <= ARRIVE_DIST
                * ARRIVE_DIST {
                if ents[ci].waypoint !is Some {
                    Err(SimError::DanglingWaypoint { entity: cw })
                } else {
                    let nid = (ents[ci].waypoint->0.id + 1) as u64;
                    match find_waypoint_last(ents, nid) {
                        None => Err(SimError::MissingWaypoint { id: nid }),
                        Some(ni) => if ents[ni].transform is Some {
                            Ok(ni)
                        } else {
                            Err(SimError::DanglingWaypoint { entity: ents[ni].id })
                        },
                    }
                }
            } else {
                Ok(ci)
            }
        },
    }
}

/// One entity after the pathing system: a subject re-targets the waypoint
/// `ai_target` picks and re-points its heading towards it, keeping its
/// speed; every other record is untouched.
pub open spec fn ai_rec(ents: Seq<EntityRec>, i: int) -> EntityRec
    recommends
        0 <= i < ents.len(),
{
    let r = ents[i];
    if ai_subject(r) {
        match ai_target(ents, i) {
            Ok(ti) => {
                let t = r.transform->0;
                let wt = ents[ti].transform->0;
                EntityRec {
                    enemy: Some(Enemy { current_waypoint: ents[ti].id }),
                    velocity: Some(
                        Velocity {
                            speed: r.velocity->0.speed,
                            dir_x: (wt.x - t.x) as i64,
                            dir_y: (wt.y - t.y) as i64,
                        },
                    ),
                    ..r
                }
            },
            Err(_) => r,
        }
    } else {
        r
    }
}

/// The first pathing error in store order, if any.
pub open spec fn ai_err_from(ents: Seq<EntityRec>, i: int) -> Option<SimError>
    decreases ents.len() - i,
{
    if i < 0 || i >= ents.len() {
        None
    } else if ai_subject(ents[i]) && ai_target(ents, i) is Err {
        Some(ai_target(ents, i)->Err_0)
    } else {
        ai_err_from(ents, i + 1)
    }
}

/// The first pathing error of the world, if any.
pub open spec fn ai_err(v: WorldView) -> Option<SimError> {
    ai_err_from(v.ents, 0)
}

/// The world after an error-free run of the pathing system.
pub open spec fn ai_spec(v: WorldView) -> WorldView {
    WorldView { ents: Seq::new(v.ents.len(), |i: int| ai_rec(v.ents, i)), ..v }
}

/// The waypoint choice made for one subject: the waypoint's entity id and
/// position.
struct AiChoice {
    wp_entity: u64,
    wx: i64,
    wy: i64,
}

/// Pathing changes only enemy targets and velocity headings, per
/// `ai_rec`, or reports the first level-data error and changes nothing.
pub struct EnemyAi;

impl EnemyAi {
    /// Run the pathing system for one frame.
    pub fn run(w: &mut World) -> (r: Result<(), SimError>)
        requires
            old(w)@.wf(),
        ensures
            match r {
                Ok(()) => ai_err(old(w)@) is None && final(w)@ == ai_spec(old(w)@) && final(
                    w)@.wf(),
                Err(e) => ai_err(old(w)@) == Some(e) && final(w)@ == old(w)@,
            },
    {
        let ghost v0 = old(w)@;
        // First pass: resolve every subject's waypoint, failing fast on
        // the first inconsistency without touching the store.
        let mut choices: Vec<Option<AiChoice>> = Vec::new();
        let mut i: usize = 0;
        while i < w.ents.len()
            invariant
                v0.wf(),
                w@ == v0,
                i <= v0.ents.len(),
                choices@.len() == i,
                ai_err_from(v0.ents, 0) == ai_err_from(v0.ents, i as int),
                forall|j: int|
                    0 <= j < i ==> match #[trigger] choices@[j] {
                        Some(c) => ai_subject(v0.ents[j]) && (ai_target(v0.ents, j) matches Ok(ti)
                            && 0 <= ti < v0.ents.len() && c.wp_entity == v0.ents[ti].id
                            && v0.ents[ti].transform == Some(
                            crate::components::Transform { x: c.wx, y: c.wy })),
                        None => !ai_subject(v0.ents[j]),
                    },
            decreases v0.ents.len() - i,
        {
            let r = w.ents[i];
            if r.alive && r.enemy.is_some() && r.transform.is_some() && r.velocity.is_some() {
                let cw = r.enemy.unwrap().current_waypoint;
                let t = r.transform.unwrap();
                match find_alive_idx(&w.ents, cw) {
                    None => {
                        return Err(SimError::DanglingWaypoint { entity: cw });
                    },
                    Some(ci) => {
                        proof {
                            crate::world::lemma_find_alive_from(v0.ents, cw, 0);
                        }
                        let wrec = w.ents[ci];
                        match wrec.transform {
                            None => {
                                return Err(SimError::DanglingWaypoint { entity: cw });
                            },
                            Some(wt) => {
                                let d = dist_sq_exec(t.x, t.y, wt.x, wt.y);
                                if d <= (ARRIVE_DIST as u128) * (ARRIVE_DIST as u128) {
                                    match wrec.waypoint {
                                        None => {
                                            return Err(
                                                SimError::DanglingWaypoint { entity: cw },
                                            );
                                        },
                                        Some(wp) => {
                                            let nid: u64 = (wp.id as u64) + 1;
                                            match find_waypoint_idx(&w.ents, nid) {
                                                None => {
                                                    return Err(
                                                        SimError::MissingWaypoint { id: nid },
                                                    );
                                                },
                                                Some(ni) => {
                                                    proof {
                                                        crate::world::lemma_find_waypoint_last(
                                                            v0.ents, nid);
                                                    }
                                                    let nrec = w.ents[ni];
                                                    match nrec.transform {
                                                        None => {
                                                            return Err(
                                                                SimError::DanglingWaypoint {
                                                                    entity: nrec.id,
                                                                },
                                                            );
                                                        },
                                                        Some(nt) => {
                                                            choices.push(
                                                                Some(
                                                                    AiChoice {
                                                                        wp_entity: nrec.id,
                                                                        wx: nt.x,
                                                                        wy: nt.y,
                                                                    },
                                                                ),
                                                            );
                                                        },
                                                    }
                                                },
                                            }
                                        },
                                    }
                                } else {
                                    choices.push(
                                        Some(AiChoice { wp_entity: wrec.id, wx: wt.x, wy: wt.y }),
                                    );
                                }
                            },
                        }
                    },
                }
            } else {
                choices.push(None);
            }
            i = i + 1;
        }
        // Second pass: apply the recorded choices.
        let mut k: usize = 0;
        while k < w.ents.len()
            invariant
                v0.wf(),
                k <= v0.ents.len(),
                w@.ents.len() == v0.ents.len(),
                choices@.len() == v0.ents.len(),
                v0 == (WorldView { ents: v0.ents, ..w@ }),
                forall|j: int|
                    0 <= j < v0.ents.len() ==> match #[trigger] choices@[j] {
                        Some(c) => ai_subject(v0.ents[j]) && (ai_target(v0.ents, j) matches Ok(ti)
                            && 0 <= ti < v0.ents.len() && c.wp_entity == v0.ents[ti].id
                            && v0.ents[ti].transform == Some(
                            crate::components::Transform { x: c.wx, y: c.wy })),
                        None => !ai_subject(v0.ents[j]),
                    },
                forall|j: int| 0 <= j < k ==> #[trigger] w@.ents[j] == ai_rec(v0.ents, j),
                forall|j: int| k <= j < v0.ents.len() ==> #[trigger] w@.ents[j] == v0.ents[j],
            decreases v0.ents.len() - k,
        {
            let r = w.ents[k];
            proof {
                assert(r == v0.ents[k as int]);
                assert(r.wf());
            }
            match &choices[k] {
                Some(c) => {
                    let t = r.transform.unwrap();
                    let vel = r.velocity.unwrap();
                    proof {
                        let ti = ai_target(v0.ents, k as int)->Ok_0;
                        assert(v0.ents[ti].wf());
                        assert(v0.ents[ti].transform->0.wf());
                    }
                    let moved = EntityRec {
                        enemy: Some(Enemy { current_waypoint: c.wp_entity }),
                        velocity: Some(
                            Velocity { speed: vel.speed, dir_x: c.wx - t.x, dir_y: c.wy - t.y },
                        ),
                        ..r
                    };
                    w.ents.set(k, moved);
                    proof {
                        assert(moved == ai_rec(v0.ents, k as int));
                    }
                },
                None => {
                    proof {
                        assert(w@.ents[k as int] == ai_rec(v0.ents, k as int));
                    }
                },
            }
            k = k + 1;
        }
        proof {
            assert(final(w)@.ents =~= ai_spec(v0).ents);
            assert(final(w)@ =~= ai_spec(v0));
            assert forall|j: int| 0 <= j < final(w)@.ents.len() implies (#[trigger] final(
                w)@.ents[j]).wf() && final(w)@.ents[j].id == v0.ents[j].id by {
                assert(final(w)@.ents[j] == ai_rec(v0.ents, j));
                assert(v0.ents[j].wf());
                if ai_subject(v0.ents[j]) {
                    assert(choices@[j] is Some);
                    let ti = ai_target(v0.ents, j)->Ok_0;
                    assert(0 <= ti < v0.ents.len());
                    assert(v0.ents[ti].wf());
                }
            }
            lemma_wf_pointwise(v0, final(w)@);
        }
        Ok(())
    }
}

} // verus!
