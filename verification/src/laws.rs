//! The guarantees the simulation makes across systems, each proved from
//! the systems' functional specifications.

use vstd::prelude::*;
use crate::resources::{CollisionEvent, DeathEvent, PlayState};
use crate::systems::attack::{attack_fold, attack_step, event_applies};
use crate::systems::death::{base_death_in, death_spec};
use crate::systems::enemy_ai::{ai_rec, ai_spec};
use crate::systems::win::{win_condition, win_spec};
use crate::world::{
    distinct_ids, find_alive, find_alive_from, lemma_find_alive_from, EntityRec, WorldView,
};

verus! {

/// Damage saturates: processing an applying collision event leaves the
/// target with its old hit points less the damage, or zero when the
/// damage was at least as large — health never goes negative.
pub proof fn lemma_damage_saturates(
    ents: Seq<EntityRec>,
    devs: Seq<DeathEvent>,
    ev: CollisionEvent,
)
    requires
        event_applies(ents, ev),
    ensures
        ({
            let ai = find_alive(ents, ev.entity_a)->0;
            let bi = find_alive(ents, ev.entity_b)->0;
            let dmg = ents[ai].attacker->0.damage;
            let hp0 = ents[bi].health->0.current_hp;
            let hp1 = attack_step(ents, devs, ev).0[bi].health->0.current_hp;
            hp1 == if dmg >= hp0 {
                0
            } else {
                hp0 - dmg
            } && hp1 >= 0
        }),
{
    lemma_find_alive_from(ents, ev.entity_a, 0);
    lemma_find_alive_from(ents, ev.entity_b, 0);
}

/// How one processed event relates to the store it leaves behind: ids,
/// attackers and markers are untouched, health stays attached, no record
/// comes back to life, and the length is kept.
pub proof fn lemma_attack_step_frame(
    ents: Seq<EntityRec>,
    devs: Seq<DeathEvent>,
    ev: CollisionEvent,
)
    ensures
        attack_step(ents, devs, ev).0.len() == ents.len(),
        forall|i: int|
            0 <= i < ents.len() ==> {
                let r = #[trigger] attack_step(ents, devs, ev).0[i];
                &&& r.id == ents[i].id
                &&& (r.alive ==> ents[i].alive)
                &&& r.attacker == ents[i].attacker
                &&& r.enemy == ents[i].enemy
                &&& r.base == ents[i].base
                &&& (r.health is Some <==> ents[i].health is Some)
            },
{
    if event_applies(ents, ev) {
        lemma_find_alive_from(ents, ev.entity_a, 0);
        lemma_find_alive_from(ents, ev.entity_b, 0);
    }
}

/// A live record makes the scan find something.
proof fn lemma_find_alive_covers_from(s: Seq<EntityRec>, id: u64, i: int, j: int)
    requires
        0 <= j <= i < s.len(),
        s[i].alive,
        s[i].id == id,
    ensures
        find_alive_from(s, id, j) is Some,
    decreases i - j,
{
    if j < i && !(s[j].alive && s[j].id == id) {
        lemma_find_alive_covers_from(s, id, i, j + 1);
    }
}

/// The attacker of an applying event does not survive its processing: in
/// a store with unique ids, no live record carries its id afterwards.
pub proof fn lemma_attacker_consumed(
    ents: Seq<EntityRec>,
    devs: Seq<DeathEvent>,
    ev: CollisionEvent,
)
    requires
        distinct_ids(ents),
        event_applies(ents, ev),
    ensures
        find_alive(attack_step(ents, devs, ev).0, ev.entity_a) is None,
{
    lemma_find_alive_from(ents, ev.entity_a, 0);
    lemma_find_alive_from(ents, ev.entity_b, 0);
    lemma_attack_step_frame(ents, devs, ev);
    let s1 = attack_step(ents, devs, ev).0;
    let ai = find_alive(ents, ev.entity_a)->0;
    assert(!s1[ai].alive);
    lemma_find_alive_from(s1, ev.entity_a, 0);
    match find_alive(s1, ev.entity_a) {
        Some(k) => {
            assert(s1[k].alive && s1[k].id == ev.entity_a);
            assert(k != ai);
            assert(ents[k].id == ents[ai].id);
            assert(false);
        },
        None => {},
    }
}

/// Processing the same collision event twice is processing it once: the
/// symmetric duplicate of a lethal event neither double-deletes nor
/// records further deaths — and so never double-credits the bounty.
pub proof fn lemma_attack_event_idempotent(
    ents: Seq<EntityRec>,
    devs: Seq<DeathEvent>,
    ev: CollisionEvent,
)
    requires
        distinct_ids(ents),
    ensures
        ({
            let once = attack_step(ents, devs, ev);
            attack_step(once.0, once.1, ev) == once
        }),
{
    let once = attack_step(ents, devs, ev);
    if event_applies(ents, ev) {
        lemma_attacker_consumed(ents, devs, ev);
        assert(!event_applies(once.0, ev));
    }
}

/// Events stay non-applicable: once an event does not apply, no further
/// processing revives it, since processing only removes life.
proof fn lemma_not_applicable_stays(
    s: Seq<EntityRec>,
    devs: Seq<DeathEvent>,
    ev2: CollisionEvent,
    ev: CollisionEvent,
)
    requires
        distinct_ids(s),
        !event_applies(s, ev),
    ensures
        !event_applies(attack_step(s, devs, ev2).0, ev),
{
    lemma_attack_step_frame(s, devs, ev2);
    let s1 = attack_step(s, devs, ev2).0;
    if event_applies(s1, ev) {
        lemma_find_alive_from(s1, ev.entity_a, 0);
        lemma_find_alive_from(s1, ev.entity_b, 0);
        let ai = find_alive(s1, ev.entity_a)->0;
        let bi = find_alive(s1, ev.entity_b)->0;
        assert(s[ai].alive && s[ai].id == ev.entity_a && s[ai].attacker is Some);
        assert(s[bi].alive && s[bi].id == ev.entity_b && s[bi].health is Some);
        lemma_find_alive_covers_from(s, ev.entity_a, ai, 0);
        lemma_find_alive_from(s, ev.entity_a, 0);
        let ka = find_alive(s, ev.entity_a)->0;
        assert(s[ka].id == s[ai].id);
        assert(ka == ai);
        lemma_find_alive_covers_from(s, ev.entity_b, bi, 0);
        lemma_find_alive_from(s, ev.entity_b, 0);
        let kb = find_alive(s, ev.entity_b)->0;
        assert(s[kb].id == s[bi].id);
        assert(kb == bi);
        assert(event_applies(s, ev));
    }
}

/// Ids stay unique through the fold.
proof fn lemma_fold_distinct(
    ents: Seq<EntityRec>,
    devs: Seq<DeathEvent>,
    evs: Seq<CollisionEvent>,
    k: int,
)
    requires
        distinct_ids(ents),
    ensures
        distinct_ids(attack_fold(ents, devs, evs, k).0),
        attack_fold(ents, devs, evs, k).0.len() == ents.len(),
        forall|i: int|
            0 <= i < ents.len() ==> (#[trigger] attack_fold(ents, devs, evs, k).0[i]).id
                == ents[i].id,
    decreases k,
{
    if k > 0 {
        lemma_fold_distinct(ents, devs, evs, k - 1);
        let prev = attack_fold(ents, devs, evs, k - 1);
        lemma_attack_step_frame(prev.0, prev.1, evs[k - 1]);
    }
}

/// After the attack system has run, no collision event of the tick still
/// applies: every attacker-and-health pairing an event named has been
/// resolved — in particular, every attacker that dealt its hit is gone
/// from the store.
pub proof fn lemma_no_event_left_applicable(
    ents: Seq<EntityRec>,
    devs: Seq<DeathEvent>,
    evs: Seq<CollisionEvent>,
    k: int,
)
    requires
        distinct_ids(ents),
        k <= evs.len(),
    ensures
        forall|m: int|
            0 <= m < k ==> !event_applies(attack_fold(ents, devs, evs, k).0, #[trigger] evs[m]),
    decreases k,
{
    if k > 0 {
        lemma_no_event_left_applicable(ents, devs, evs, k - 1);
        lemma_fold_distinct(ents, devs, evs, k - 1);
        let prev = attack_fold(ents, devs, evs, k - 1);
        let cur = attack_fold(ents, devs, evs, k);
        assert forall|m: int| 0 <= m < k implies !event_applies(cur.0, #[trigger] evs[m]) by {
            if m < k - 1 {
                lemma_not_applicable_stays(prev.0, prev.1, evs[k - 1], evs[m]);
            } else {
                if event_applies(prev.0, evs[k - 1]) {
                    lemma_attacker_consumed(prev.0, prev.1, evs[k - 1]);
                } else {
                    lemma_not_applicable_stays(prev.0, prev.1, evs[k - 1], evs[m]);
                }
            }
        }
    }
}

/// Pathing preserves speed: after any run of the enemy pathing system,
/// every entity keeps exactly the travel speed it had — only headings
/// change.
pub proof fn lemma_ai_preserves_speed(v: WorldView)
    ensures
        ai_spec(v).ents.len() == v.ents.len(),
        forall|i: int|
            0 <= i < v.ents.len() ==> match (#[trigger] ai_spec(v).ents[i].velocity, v.ents[
                i].velocity) {
                (Some(nv), Some(ov)) => nv.speed == ov.speed,
                (None, None) => true,
                _ => false,
            },
{
    assert forall|i: int|
        0 <= i < v.ents.len() implies match (#[trigger] ai_spec(v).ents[i].velocity, v.ents[
        i].velocity) {
        (Some(nv), Some(ov)) => nv.speed == ov.speed,
        (None, None) => true,
        _ => false,
    } by {
        assert(ai_spec(v).ents[i] == ai_rec(v.ents, i));
    }
}

/// The pathing system applied `n` times over.
pub open spec fn ai_iter(v: WorldView, n: nat) -> WorldView
    decreases n,
{
    if n == 0 {
        v
    } else {
        ai_spec(ai_iter(v, (n - 1) as nat))
    }
}

/// Speed is invariant across any number of pathing runs.
pub proof fn lemma_ai_iter_preserves_speed(v: WorldView, n: nat)
    ensures
        ai_iter(v, n).ents.len() == v.ents.len(),
        forall|i: int|
            0 <= i < v.ents.len() ==> match (#[trigger] ai_iter(v, n).ents[i].velocity, v.ents[
                i].velocity) {
                (Some(nv), Some(ov)) => nv.speed == ov.speed,
                (None, None) => true,
                _ => false,
            },
    decreases n,
{
    if n > 0 {
        lemma_ai_iter_preserves_speed(v, (n - 1) as nat);
        lemma_ai_preserves_speed(ai_iter(v, (n - 1) as nat));
    }
}

/// Victory triggers exactly when a playing game has at least one base and
/// no enemy or spawner records left, regardless of history; the terminal
/// states stay what they are.
pub proof fn lemma_win_iff(v: WorldView)
    ensures
        (win_spec(v).play_state == PlayState::Win) <==> (v.play_state == PlayState::Win || (
        v.play_state == PlayState::Play && win_condition(v.ents))),
{
}

/// Defeat triggers exactly when a base's death event is processed; a tick
/// without one never sets it, and it persists once set.
pub proof fn lemma_lose_iff(v: WorldView)
    ensures
        (death_spec(v).play_state == PlayState::Lose) <==> (v.play_state == PlayState::Lose
            || base_death_in(v.ents, v.death_events, v.death_events.len() as int)),
{
}

/// A playing tick ends lost exactly when this tick's combat processed a
/// base's death event — never earlier, and never for any other reason.
pub proof fn lemma_tick_lose(v: WorldView, dt: u64)
    requires
        v.maintain_spec().clear_events_spec().play_state == PlayState::Play,
        crate::tick::tick_spec(v, dt) is Ok,
    ensures
        ({
            let v1 = v.maintain_spec().clear_events_spec();
            let v6 = crate::systems::attack::attack_spec(
                crate::systems::collision::collision_spec(
                    crate::systems::movement::movement_spec(
                        crate::systems::shooter::shooter_spec(ai_spec(v1), dt),
                        dt,
                    ),
                ),
            );
            let v7 = crate::systems::spawner::spawner_spec(v6, dt);
            (crate::tick::tick_spec(v, dt)->Ok_0.play_state == PlayState::Lose) <==> base_death_in(
                v7.ents,
                v7.death_events,
                v7.death_events.len() as int,
            )
        }),
{
}

/// A playing tick ends won exactly when, after this tick's combat and
/// spawning, no base death was processed and the store meets the winning
/// condition: a base remains and no enemy or spawner records are left.
pub proof fn lemma_tick_win(v: WorldView, dt: u64)
    requires
        v.maintain_spec().clear_events_spec().play_state == PlayState::Play,
        crate::tick::tick_spec(v, dt) is Ok,
    ensures
        ({
            let v1 = v.maintain_spec().clear_events_spec();
            let v6 = crate::systems::attack::attack_spec(
                crate::systems::collision::collision_spec(
                    crate::systems::movement::movement_spec(
                        crate::systems::shooter::shooter_spec(ai_spec(v1), dt),
                        dt,
                    ),
                ),
            );
            let v7 = crate::systems::spawner::spawner_spec(v6, dt);
            (crate::tick::tick_spec(v, dt)->Ok_0.play_state == PlayState::Win) <==> (
            !base_death_in(v7.ents, v7.death_events, v7.death_events.len() as int)
                && win_condition(v7.ents))
        }),
{
}

} // verus!
