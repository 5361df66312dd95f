//! Death bookkeeping: each death event of an entity that carried a base
//! marker loses the game; each one of an entity that carried an enemy
//! marker credits the bounty.  Lookups ignore the liveness flag, since
//! the dead records stay in the store until the tick's final `maintain`.

use vstd::prelude::*;
use crate::components::ENEMY_BOUNTY;
use crate::nums::sat_add_u32;
use crate::resources::{BuildResources, DeathEvent, PlayState};
use crate::world::{find_raw, find_raw_idx, lemma_find_raw_from, EntityRec, World, WorldView};

verus! {

/// Whether this death event belongs to an entity that carried a base.
pub open spec fn is_base_death(ents: Seq<EntityRec>, d: DeathEvent) -> bool {
    find_raw(ents, d.entity) matches Some(i) && ents[i].base is Some
}

/// Whether this death event belongs to an entity that carried an enemy
/// marker.
pub open spec fn is_enemy_death(ents: Seq<EntityRec>, d: DeathEvent) -> bool {
    find_raw(ents, d.entity) matches Some(i) && ents[i].enemy is Some
}

/// Whether a base death occurs among the first `k` events.
pub open spec fn base_death_in(ents: Seq<EntityRec>, devs: Seq<DeathEvent>, k: int) -> bool {
    exists|m: int| 0 <= m < k && is_base_death(ents, #[trigger] devs[m])
}

/// How many of the first `k` events are enemy deaths.
pub open spec fn enemy_deaths_upto(ents: Seq<EntityRec>, devs: Seq<DeathEvent>, k: int) -> nat
    decreases k,
{
    if k <= 0 {
        0
    } else {
        enemy_deaths_upto(ents, devs, k - 1) + if is_enemy_death(ents, devs[k - 1]) {
            1 as nat
        } else {
            0 as nat
        }
    }
}

/// The world after the death system: the game is lost exactly when a base
/// death was processed, and the balance is credited one bounty per enemy
/// death, saturating at the largest balance.
pub open spec fn death_spec(v: WorldView) -> WorldView {
    let n = v.death_events.len() as int;
    WorldView {
        play_state: if base_death_in(v.ents, v.death_events, n) {
            PlayState::Lose
        } else {
            v.play_state
        },
        build_resources: BuildResources {
            bits: if v.build_resources.bits + ENEMY_BOUNTY * enemy_deaths_upto(
                v.ents,
                v.death_events,
                n,
            ) > u32::MAX {
                u32::MAX
            } else {
                (v.build_resources.bits + ENEMY_BOUNTY * enemy_deaths_upto(
                    v.ents,
                    v.death_events,
                    n,
                )) as u32
            },
        },
        ..v
    }
}

/// The death system only sets the terminal state and credits bounties,
/// per `death_spec`.
pub struct DeathSystem;

impl DeathSystem {
    /// Run the death system for one tick's events.
    pub fn run(w: &mut World)
        requires
            old(w)@.wf(),
        ensures
            final(w)@ == death_spec(old(w)@),
            final(w)@.wf(),
    {
        let ghost v0 = old(w)@;
        let mut k: usize = 0;
        while k < w.death_events.len()
            invariant
                v0.wf(),
                k <= v0.death_events.len(),
                v0 == (WorldView {
                    play_state: v0.play_state,
                    build_resources: v0.build_resources,
                    ..w@
                }),
                w@.play_state == if base_death_in(v0.ents, v0.death_events, k as int) {
                    PlayState::Lose
                } else {
                    v0.play_state
                },
                w@.build_resources.bits == if v0.build_resources.bits + ENEMY_BOUNTY
                    * enemy_deaths_upto(v0.ents, v0.death_events, k as int) > u32::MAX {
                    u32::MAX
                } else {
                    (v0.build_resources.bits + ENEMY_BOUNTY * enemy_deaths_upto(
                        v0.ents,
                        v0.death_events,
                        k as int,
                    )) as u32
                },
            decreases v0.death_events.len() - k,
        {
            let d = w.death_events[k];
            match find_raw_idx(&w.ents, d.entity) {
                Some(i) => {
                    proof {
                        lemma_find_raw_from(v0.ents, d.entity, 0);
                    }
                    let rec = w.ents[i];
                    if rec.base.is_some() {
                        w.play_state = PlayState::Lose;
                        proof {
                            assert(is_base_death(v0.ents, v0.death_events[k as int]));
                            assert(base_death_in(v0.ents, v0.death_events, k as int + 1));
                        }
                    } else {
                        proof {
                            assert(!is_base_death(v0.ents, v0.death_events[k as int]));
                            assert(base_death_in(v0.ents, v0.death_events, k as int + 1)
                                == base_death_in(v0.ents, v0.death_events, k as int)) by {
                                if base_death_in(v0.ents, v0.death_events, k as int + 1) {
                                    let m = choose|m: int|
                                        0 <= m < k as int + 1 && is_base_death(
                                            v0.ents,
                                            #[trigger] v0.death_events[m],
                                        );
                                    assert(m < k as int);
                                }
                            }
                        }
                    }
                    if rec.enemy.is_some() {
                        let bits0 = w.build_resources.bits;
                        w.build_resources = BuildResources {
                            bits: sat_add_u32(bits0, ENEMY_BOUNTY),
                        };
                        proof {
                            assert(is_enemy_death(v0.ents, v0.death_events[k as int]));
                        }
                    } else {
                        proof {
                            assert(!is_enemy_death(v0.ents, v0.death_events[k as int]));
                        }
                    }
                },
                None => {
                    proof {
                        assert(!is_base_death(v0.ents, v0.death_events[k as int]));
                        assert(!is_enemy_death(v0.ents, v0.death_events[k as int]));
                        assert(base_death_in(v0.ents, v0.death_events, k as int + 1)
                            == base_death_in(v0.ents, v0.death_events, k as int)) by {
                            if base_death_in(v0.ents, v0.death_events, k as int + 1) {
                                let m = choose|m: int|
                                    0 <= m < k as int + 1 && is_base_death(
                                        v0.ents,
                                        #[trigger] v0.death_events[m],
                                    );
                                assert(m < k as int);
                            }
                        }
                    }
                },
            }
            k = k + 1;
        }
        proof {
            assert(final(w)@ =~= death_spec(v0));
        }
    }
}

} // verus!
