//! Movement: integrate each velocity into its position over the frame.

use vstd::prelude::*;
use crate::components::{Transform, DT_MAX, POS_LIMIT};
use crate::nums::{disp_x, disp_y, displacement};
use crate::world::{lemma_wf_pointwise, EntityRec, World, WorldView};

verus! {

/// A coordinate clamped to the world bounds.
pub open spec fn clamp_pos(p: int) -> int {
    if p < -POS_LIMIT {
        -POS_LIMIT as int
    } else if p > POS_LIMIT {
        POS_LIMIT as int
    } else {
        p
    }
}

/// A coordinate clamped to the world bounds.
pub fn clamp_pos_exec(p: i64) -> (r: i64)
    ensures
        r == clamp_pos(p as int),
{
    if p < -POS_LIMIT {
        -POS_LIMIT
    } else if p > POS_LIMIT {
        POS_LIMIT
    } else {
        p
    }
}

/// One entity after the movement system: a live record holding both a
/// position and a velocity advances by the frame's displacement, clamped
/// to the world bounds; every other record is untouched.
pub open spec fn move_rec(r: EntityRec, dt: u64) -> EntityRec {
    match (r.transform, r.velocity) {
        (Some(t), Some(v)) => if r.alive {
            EntityRec {
                transform: Some(
                    Transform {
                        x: clamp_pos(t.x + disp_x(v, dt)) as i64,
                        y: clamp_pos(t.y + disp_y(v, dt)) as i64,
                    },
                ),
                ..r
            }
        } else {
            r
        },
        _ => r,
    }
}

/// The world after the movement system.
pub open spec fn movement_spec(v: WorldView, dt: u64) -> WorldView {
    WorldView { ents: Seq::new(v.ents.len(), |i: int| move_rec(v.ents[i], dt)), ..v }
}

/// Movement changes only positions, per `move_rec`, and preserves
/// well-formedness.
pub struct UpdatePosition;

impl UpdatePosition {
    /// Run the movement system for one frame.
    pub fn run(w: &mut World, dt: u64)
        requires
            old(w)@.wf(),
            dt <= DT_MAX,
        ensures
            final(w)@ == movement_spec(old(w)@, dt),
            final(w)@.wf(),
    {
        let ghost v0 = old(w)@;
        let mut i: usize = 0;
        while i < w.ents.len()
            invariant
                v0.wf(),
                dt <= DT_MAX,
                i <= w@.ents.len(),
                w@.ents.len() == v0.ents.len(),
                v0 == (WorldView { ents: v0.ents, ..w@ }),
                forall|j: int| 0 <= j < i ==> #[trigger] w@.ents[j] == move_rec(v0.ents[j], dt),
                forall|j: int| i <= j < v0.ents.len() ==> #[trigger] w@.ents[j] == v0.ents[j],
            decreases w@.ents.len() - i,
        {
            let r = w.ents[i];
            proof {
                assert(r == v0.ents[i as int]);
                assert(r.wf());
            }
            if r.alive && r.transform.is_some() && r.velocity.is_some() {
                let t = r.transform.unwrap();
                let vel = r.velocity.unwrap();
                let d = displacement(&vel, dt);
                let nx = clamp_pos_exec(t.x + d.0);
                let ny = clamp_pos_exec(t.y + d.1);
                let moved = EntityRec { transform: Some(Transform { x: nx, y: ny }), ..r };
                w.ents.set(i, moved);
                proof {
                    assert(moved == move_rec(v0.ents[i as int], dt));
                }
            } else {
                proof {
                    assert(w@.ents[i as int] == move_rec(v0.ents[i as int], dt));
                }
            }
            i = i + 1;
        }
        proof {
            assert(final(w)@.ents =~= movement_spec(v0, dt).ents);
            assert(final(w)@ =~= movement_spec(v0, dt));
            assert forall|j: int| 0 <= j < final(w)@.ents.len() implies (#[trigger] final(
                w)@.ents[j]).wf() && final(w)@.ents[j].id < final(w)@.next_id by {
                assert(final(w)@.ents[j] == move_rec(v0.ents[j], dt));
                assert(v0.ents[j].wf());
            }
            lemma_wf_pointwise(v0, final(w)@);
        }
    }
}

} // verus!
