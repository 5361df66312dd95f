//! Collision detection: every ordered pair of live, positioned, collidable
//! entities of opposing factions whose rectangles strictly overlap yields
//! one collision event — so one physical overlap yields the two
//! complementary events (A, B) and (B, A).

use vstd::prelude::*;
use crate::rect::{rects_overlap, Rect};
use crate::resources::CollisionEvent;
use crate::world::{EntityRec, World, WorldView};

verus! {

/// A record the collision system considers: live, with a position, a
/// faction and a collider.
pub open spec fn collidable(r: EntityRec) -> bool {
    r.alive && r.transform is Some && r.faction is Some && r.collider is Some
}

/// The rectangle a record occupies.
pub open spec fn rect_of(r: EntityRec) -> Rect {
    Rect {
        x: r.transform->0.x,
        y: r.transform->0.y,
        half_width: r.collider->0.half_width,
        half_height: r.collider->0.half_height,
    }
}

/// Whether the ordered pair `(i, j)` collides: both collidable, factions
/// opposing, rectangles strictly overlapping.
pub open spec fn pair_collides(ents: Seq<EntityRec>, i: int, j: int) -> bool {
    &&& collidable(ents[i])
    &&& collidable(ents[j])
    &&& ents[i].faction != ents[j].faction
    &&& rects_overlap(rect_of(ents[i]), rect_of(ents[j]))
}

/// The collision event an ordered pair produces.
pub open spec fn event_of(ents: Seq<EntityRec>, i: int, j: int) -> CollisionEvent {
    CollisionEvent { entity_a: ents[i].id, entity_b: ents[j].id }
}

/// The events entity `i` produces against targets below `j`, in order.
pub open spec fn row_events(ents: Seq<EntityRec>, i: int, j: int) -> Seq<CollisionEvent>
    decreases j,
{
    if j <= 0 {
        Seq::empty()
    } else {
        row_events(ents, i, j - 1) + if pair_collides(ents, i, j - 1) {
            seq![event_of(ents, i, j - 1)]
        } else {
            Seq::empty()
        }
    }
}

/// The events the entities below `i` produce, row by row.
pub open spec fn all_events(ents: Seq<EntityRec>, i: int) -> Seq<CollisionEvent>
    decreases i,
{
    if i <= 0 {
        Seq::empty()
    } else {
        all_events(ents, i - 1) + row_events(ents, i - 1, ents.len() as int)
    }
}

/// A non-collidable entity produces no events.
pub proof fn lemma_row_empty(ents: Seq<EntityRec>, i: int, j: int)
    requires
        0 <= i < ents.len(),
        !collidable(ents[i]),
    ensures
        row_events(ents, i, j) == Seq::<CollisionEvent>::empty(),
    decreases j,
{
    if j > 0 {
        lemma_row_empty(ents, i, j - 1);
        assert(row_events(ents, i, j) =~= Seq::<CollisionEvent>::empty());
    }
}

/// The world after the collision system: the frame's events are appended
/// in ordered-pair order; nothing else changes.
pub open spec fn collision_spec(v: WorldView) -> WorldView {
    WorldView {
        collision_events: v.collision_events + all_events(v.ents, v.ents.len() as int),
        ..v
    }
}

/// Collision detection only appends events, per `collision_spec`.
pub struct CollisionSystem;

impl CollisionSystem {
    /// Run the collision system for one frame.
    pub fn run(w: &mut World)
        requires
            old(w)@.wf(),
        ensures
            final(w)@ == collision_spec(old(w)@),
            final(w)@.wf(),
    {
        let ghost v0 = old(w)@;
        let mut i: usize = 0;
        while i < w.ents.len()
            invariant
                v0.wf(),
                i <= v0.ents.len(),
                v0 == (WorldView { collision_events: v0.collision_events, ..w@ }),
                w@.collision_events == v0.collision_events + all_events(v0.ents, i as int),
            decreases v0.ents.len() - i,
        {
            let a = w.ents[i];
            if a.alive && a.transform.is_some() && a.faction.is_some() && a.collider.is_some() {
                let at = a.transform.unwrap();
                let ac = a.collider.unwrap();
                let arect = Rect {
                    x: at.x,
                    y: at.y,
                    half_width: ac.half_width,
                    half_height: ac.half_height,
                };
                let mut j: usize = 0;
                while j < w.ents.len()
                    invariant
                        v0.wf(),
                        i < v0.ents.len(),
                        j <= v0.ents.len(),
                        v0 == (WorldView { collision_events: v0.collision_events, ..w@ }),
                        a == v0.ents[i as int],
                        collidable(a),
                        arect == rect_of(a),
                        w@.collision_events == v0.collision_events + all_events(v0.ents, i as int)
                            + row_events(v0.ents, i as int, j as int),
                    decreases v0.ents.len() - j,
                {
                    let b = w.ents[j];
                    proof {
                        assert(b == v0.ents[j as int]);
                        assert(b.wf() && a.wf());
                    }
                    if b.alive && b.transform.is_some() && b.faction.is_some()
                        && b.collider.is_some() && b.faction.unwrap() != a.faction.unwrap() {
                        let bt = b.transform.unwrap();
                        let bc = b.collider.unwrap();
                        let brect = Rect {
                            x: bt.x,
                            y: bt.y,
                            half_width: bc.half_width,
                            half_height: bc.half_height,
                        };
                        if arect.overlaps(&brect) {
                            w.collision_events.push(
                                CollisionEvent { entity_a: a.id, entity_b: b.id },
                            );
                            proof {
                                assert(pair_collides(v0.ents, i as int, j as int));
                                assert(w@.collision_events =~= v0.collision_events + all_events(
                                    v0.ents,
                                    i as int,
                                ) + row_events(v0.ents, i as int, j as int + 1));
                            }
                        } else {
                            proof {
                                assert(!pair_collides(v0.ents, i as int, j as int));
                                assert(w@.collision_events =~= v0.collision_events + all_events(
                                    v0.ents,
                                    i as int,
                                ) + row_events(v0.ents, i as int, j as int + 1));
                            }
                        }
                    } else {
                        proof {
                            assert(!pair_collides(v0.ents, i as int, j as int));
                            assert(w@.collision_events =~= v0.collision_events + all_events(
                                v0.ents,
                                i as int,
                            ) + row_events(v0.ents, i as int, j as int + 1));
                        }
                    }
                    j = j + 1;
                }
                proof {
                    assert(w@.collision_events =~= v0.collision_events + all_events(
                        v0.ents,
                        i as int + 1,
                    ));
                }
            } else {
                proof {
                    lemma_row_empty(v0.ents, i as int, v0.ents.len() as int);
                    assert(w@.collision_events =~= v0.collision_events + all_events(
                        v0.ents,
                        i as int + 1,
                    ));
                }
            }
            i = i + 1;
        }
        proof {
            assert(final(w)@ =~= collision_spec(v0));
            assert(final(w)@.ents =~= v0.ents);
            assert(final(w)@.pending =~= v0.pending);
        }
    }
}

} // verus!
