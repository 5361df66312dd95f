//! The win check: with at least one base standing and no enemies or
//! spawners left — counting records still awaiting removal — a playing
//! game is won.  It runs every tick, so victory also fires in the steady
//! state where the last hostile died ticks ago.  The terminal states are
//! never overwritten.

use vstd::prelude::*;
use crate::resources::PlayState;
use crate::world::{EntityRec, World, WorldView};

verus! {

/// Some record carries a base marker.
pub open spec fn any_base(ents: Seq<EntityRec>) -> bool {
    exists|i: int| 0 <= i < ents.len() && (#[trigger] ents[i]).base is Some
}

/// Some record carries an enemy marker.
pub open spec fn any_enemy(ents: Seq<EntityRec>) -> bool {
    exists|i: int| 0 <= i < ents.len() && (#[trigger] ents[i]).enemy is Some
}

/// Some record carries a spawner.
pub open spec fn any_spawner(ents: Seq<EntityRec>) -> bool {
    exists|i: int| 0 <= i < ents.len() && (#[trigger] ents[i]).spawner is Some
}

/// The winning condition: at least one base, no enemies, no spawners.
pub open spec fn win_condition(ents: Seq<EntityRec>) -> bool {
    any_base(ents) && !any_enemy(ents) && !any_spawner(ents)
}

/// The world after the win system: a playing game that meets the winning
/// condition is won; any other state is untouched.
pub open spec fn win_spec(v: WorldView) -> WorldView {
    WorldView {
        play_state: if v.play_state == PlayState::Play && win_condition(v.ents) {
            PlayState::Win
        } else {
            v.play_state
        },
        ..v
    }
}

/// The win system only decides victory, per `win_spec`.
pub struct WinSystem;

impl WinSystem {
    /// Run the win check.
    pub fn run(w: &mut World)
        requires
            old(w)@.wf(),
        ensures
            final(w)@ == win_spec(old(w)@),
            final(w)@.wf(),
    {
        let ghost v0 = old(w)@;
        let mut has_base = false;
        let mut has_enemy = false;
        let mut has_spawner = false;
        let mut i: usize = 0;
        while i < w.ents.len()
            invariant
                w@ == v0,
                i <= v0.ents.len(),
                has_base == exists|m: int|
                    0 <= m < i && (#[trigger] v0.ents[m]).base is Some,
                has_enemy == exists|m: int|
                    0 <= m < i && (#[trigger] v0.ents[m]).enemy is Some,
                has_spawner == exists|m: int|
                    0 <= m < i && (#[trigger] v0.ents[m]).spawner is Some,
            decreases v0.ents.len() - i,
        {
            let r = &w.ents[i];
            if r.base.is_some() {
                has_base = true;
            }
            if r.enemy.is_some() {
                has_enemy = true;
            }
            if r.spawner.is_some() {
                has_spawner = true;
            }
            proof {
                if !has_base {
                    assert forall|m: int|
                        0 <= m < i + 1 implies (#[trigger] v0.ents[m]).base !is Some by {}
                }
                if !has_enemy {
                    assert forall|m: int|
                        0 <= m < i + 1 implies (#[trigger] v0.ents[m]).enemy !is Some by {}
                }
                if !has_spawner {
                    assert forall|m: int|
                        0 <= m < i + 1 implies (#[trigger] v0.ents[m]).spawner !is Some by {}
                }
            }
            i = i + 1;
        }
        let is_play = matches!(w.play_state, PlayState::Play);
        if is_play && has_base && !has_enemy && !has_spawner {
            w.play_state = PlayState::Win;
        }
        proof {
            assert(final(w)@ =~= win_spec(v0));
        }
    }
}

} // verus!
