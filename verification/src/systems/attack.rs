//! Combat: each collision event whose first entity still carries an
//! attacker and whose second still carries health — both live — deals the
//! attacker's damage (saturating at zero), consumes the attacker, and
//! records deaths.  Events that reference an entity already deleted this
//! tick are silently skipped, which makes the symmetric duplicate of a
//! lethal event a no-op.

use vstd::prelude::*;
use crate::components::Health;
use crate::nums::sat_sub_u32;
use crate::resources::{CollisionEvent, DeathEvent};
use crate::world::{
    find_alive, find_alive_idx, lemma_find_alive_from, lemma_wf_pointwise, EntityRec, World,
    WorldView,
};

verus! {

/// Whether an event still applies: its attacker side is live with an
/// attacker, its target side live with health.
pub open spec fn event_applies(ents: Seq<EntityRec>, ev: CollisionEvent) -> bool {
    &&& find_alive(ents, ev.entity_a) matches Some(ai) && ents[ai].attacker is Some
    &&& find_alive(ents, ev.entity_b) matches Some(bi) && ents[bi].health is Some
}

/// The store and death log after processing one collision event.
pub open spec fn attack_step(
    ents: Seq<EntityRec>,
    devs: Seq<DeathEvent>,
    ev: CollisionEvent,
) -> (Seq<EntityRec>, Seq<DeathEvent>) {
    if event_applies(ents, ev) {
        let ai = find_alive(ents, ev.entity_a)->0;
        let bi = find_alive(ents, ev.entity_b)->0;
        let dmg = ents[ai].attacker->0.damage;
        let hp0 = ents[bi].health->0.current_hp;
        let hp1: u32 = if hp0 >= dmg {
            (hp0 - dmg) as u32
        } else {
            0
        };
        let ents1 = ents.update(
            bi,
            EntityRec { health: Some(Health { current_hp: hp1 }), ..ents[bi] },
        );
        let ents2 = ents1.update(ai, EntityRec { alive: false, ..ents1[ai] });
        let devs1 = devs.push(DeathEvent { entity: ev.entity_a });
        if hp1 == 0 && ents2[bi].alive {
            (
                ents2.update(bi, EntityRec { alive: false, ..ents2[bi] }),
                devs1.push(DeathEvent { entity: ev.entity_b }),
            )
        } else {
            (ents2, devs1)
        }
    } else {
        (ents, devs)
    }
}

/// The store and death log after processing the first `k` events in
/// order.
pub open spec fn attack_fold(
    ents: Seq<EntityRec>,
    devs: Seq<DeathEvent>,
    evs: Seq<CollisionEvent>,
    k: int,
) -> (Seq<EntityRec>, Seq<DeathEvent>)
    decreases k,
{
    if k <= 0 {
        (ents, devs)
    } else {
        let prev = attack_fold(ents, devs, evs, k - 1);
        attack_step(prev.0, prev.1, evs[k - 1])
    }
}

/// Processing events never adds or removes records.
pub proof fn lemma_attack_fold_len(
    ents: Seq<EntityRec>,
    devs: Seq<DeathEvent>,
    evs: Seq<CollisionEvent>,
    k: int,
)
    ensures
        attack_fold(ents, devs, evs, k).0.len() == ents.len(),
    decreases k,
{
    if k > 0 {
        lemma_attack_fold_len(ents, devs, evs, k - 1);
        let prev = attack_fold(ents, devs, evs, k - 1);
        lemma_find_alive_from(prev.0, evs[k - 1].entity_a, 0);
        lemma_find_alive_from(prev.0, evs[k - 1].entity_b, 0);
    }
}

/// The world after the attack system: the store and the death log are
/// folded over this tick's collision events.
pub open spec fn attack_spec(v: WorldView) -> WorldView {
    let folded = attack_fold(v.ents, v.death_events, v.collision_events,
        v.collision_events.len() as int);
    WorldView { ents: folded.0, death_events: folded.1, ..v }
}

/// Combat consumes attackers, saturates health at zero and records
/// deaths, per `attack_spec`.
pub struct AttackSystem;

impl AttackSystem {
    /// Run the attack system for one tick's events.
    pub fn run(w: &mut World)
        requires
            old(w)@.wf(),
        ensures
            final(w)@ == attack_spec(old(w)@),
            final(w)@.wf(),
    {
        let ghost v0 = old(w)@;
        let mut k: usize = 0;
        while k < w.collision_events.len()
            invariant
                v0.wf(),
                w@.wf(),
                k <= v0.collision_events.len(),
                v0 == (WorldView { ents: v0.ents, death_events: v0.death_events, ..w@ }),
                w@.ents == attack_fold(v0.ents, v0.death_events, v0.collision_events, k as int).0,
                w@.death_events == attack_fold(v0.ents, v0.death_events, v0.collision_events,
                    k as int).1,
            decreases v0.collision_events.len() - k,
        {
            let ghost ents_in = w@.ents;
            let ghost devs_in = w@.death_events;
            let ghost w_in = w@;
            let ev = w.collision_events[k];
            let a_found = find_alive_idx(&w.ents, ev.entity_a);
            let b_found = find_alive_idx(&w.ents, ev.entity_b);
            proof {
                lemma_find_alive_from(ents_in, ev.entity_a, 0);
                lemma_find_alive_from(ents_in, ev.entity_b, 0);
            }
            let applies = match (a_found, b_found) {
                (Some(ai), Some(bi)) => w.ents[ai].attacker.is_some()
                    && w.ents[bi].health.is_some(),
                _ => false,
            };
            if applies {
                let ai = a_found.unwrap();
                let bi = b_found.unwrap();
                let dmg = w.ents[ai].attacker.unwrap().damage;
                let hp0 = w.ents[bi].health.unwrap().current_hp;
                let hp1 = sat_sub_u32(hp0, dmg);
                let b_rec = w.ents[bi];
                w.ents.set(bi, EntityRec { health: Some(Health { current_hp: hp1 }), ..b_rec });
                let a_rec = w.ents[ai];
                w.ents.set(ai, EntityRec { alive: false, ..a_rec });
                w.death_events.push(DeathEvent { entity: ev.entity_a });
                if hp1 == 0 && w.ents[bi].alive {
                    let b_rec2 = w.ents[bi];
                    w.ents.set(bi, EntityRec { alive: false, ..b_rec2 });
                    w.death_events.push(DeathEvent { entity: ev.entity_b });
                }
                proof {
                    assert(event_applies(ents_in, ev));
                    assert(w@.ents == attack_step(ents_in, devs_in, ev).0);
                    assert(w@.death_events == attack_step(ents_in, devs_in, ev).1);
                    // Ids are untouched, so well-formedness carries over.
                    assert forall|j: int| 0 <= j < w@.ents.len() implies (#[trigger] w@.ents[
                        j]).id == w_in.ents[j].id && w@.ents[j].wf() by {
                        assert(w_in.ents[j].wf());
                    }
                    lemma_wf_pointwise(w_in, w@);
                }
            } else {
                proof {
                    assert(!event_applies(ents_in, ev));
                    assert(w@.ents == attack_step(ents_in, devs_in, ev).0);
                    assert(w@.death_events == attack_step(ents_in, devs_in, ev).1);
                }
            }
            k = k + 1;
        }
        proof {
            assert(final(w)@ =~= attack_spec(v0));
        }
    }
}

} // verus!
