//! Shooting: a shooter whose cooldown has elapsed fires at the first
//! opposing entity within its attack radius, in store order — not the
//! nearest one — resetting its cooldown and deferring the creation of a
//! projectile aimed at that target.  A shooter still cooling down counts
//! the frame off instead.

use vstd::prelude::*;
use crate::components::{
    Attacker, Collider, Drawable, Projectile, Shooter, Velocity, DT_MAX, PROJECTILE_DAMAGE,
    PROJECTILE_HALF_EXTENT, PROJECTILE_SPEED,
};
use crate::nums::{dist_sq, dist_sq_exec, sat_sub_u64};
use crate::world::{lemma_wf_pointwise, EntityRec, World, WorldView};

verus! {

/// A record the shooting system drives: a live shooter with a position and
/// a faction.
pub open spec fn shooter_subject(r: EntityRec) -> bool {
    r.alive && r.shooter is Some && r.transform is Some && r.faction is Some
}

/// Whether record `j` is a target record `i` may fire at: live, positioned,
/// of the opposing faction, and within the attack radius.
pub open spec fn target_ok(ents: Seq<EntityRec>, i: int, j: int) -> bool {
    let s = ents[i];
    let t = ents[j];
    &&& t.alive
    &&& t.transform is Some
    &&& t.faction is Some
    &&& t.faction != s.faction
    &&& dist_sq(
        s.transform->0.x as int,
        s.transform->0.y as int,
        t.transform->0.x as int,
        t.transform->0.y as int,
    ) <= s.shooter->0.attack_radius * s.shooter->0.attack_radius
}

/// The first qualifying target for shooter `i`, scanning from `j`.
pub open spec fn first_target_from(ents: Seq<EntityRec>, i: int, j: int) -> Option<int>
    decreases ents.len() - j,
{
    if j < 0 || j >= ents.len() {
        None
    } else if target_ok(ents, i, j) {
        Some(j)
    } else {
        first_target_from(ents, i, j + 1)
    }
}

/// The first qualifying target for shooter `i`, in store order.
pub open spec fn first_target(ents: Seq<EntityRec>, i: int) -> Option<int> {
    first_target_from(ents, i, 0)
}

/// What `first_target_from` returns lies in range and qualifies, and
/// nothing earlier does.
pub proof fn lemma_first_target_from(ents: Seq<EntityRec>, i: int, j: int)
    requires
        0 <= j,
    ensures
        first_target_from(ents, i, j) matches Some(k) ==> j <= k < ents.len() && target_ok(
            ents, i, k),
        first_target_from(ents, i, j) is None ==> forall|k: int|
            j <= k < ents.len() ==> !target_ok(ents, i, k),
    decreases ents.len() - j,
{
    if j < ents.len() && !target_ok(ents, i, j) {
        lemma_first_target_from(ents, i, j + 1);
    }
}

/// Whether shooter `i` fires this frame: its cooldown has elapsed and a
/// target qualifies.
pub open spec fn shooter_fires(ents: Seq<EntityRec>, i: int) -> bool {
    &&& shooter_subject(ents[i])
    &&& ents[i].shooter->0.cooldown == 0
    &&& first_target(ents, i) is Some
}

/// One entity after the shooting system: a cooling shooter counts the
/// frame off (saturating at zero); one that fires resets its cooldown to
/// its attack period; every other record is untouched.
pub open spec fn shooter_rec(ents: Seq<EntityRec>, i: int, dt: u64) -> EntityRec
    recommends
        0 <= i < ents.len(),
{
    let r = ents[i];
    if shooter_subject(r) {
        let sh = r.shooter->0;
        if sh.cooldown > 0 {
            EntityRec {
                shooter: Some(
                    Shooter {
                        cooldown: if sh.cooldown >= dt {
                            (sh.cooldown - dt) as u64
                        } else {
                            0
                        },
                        ..sh
                    },
                ),
                ..r
            }
        } else if first_target(ents, i) is Some {
            EntityRec { shooter: Some(Shooter { cooldown: sh.seconds_per_attack, ..sh }), ..r }
        } else {
            r
        }
    } else {
        r
    }
}

/// The projectile a shooter fires: single-use, at the shooter's position,
/// of the shooter's faction, heading for the target at the fixed
/// projectile speed.
pub open spec fn projectile_rec(s: EntityRec, t: EntityRec, id: u64) -> EntityRec {
    EntityRec {
        id,
        alive: true,
        transform: s.transform,
        velocity: Some(
            Velocity {
                speed: PROJECTILE_SPEED,
                dir_x: (t.transform->0.x - s.transform->0.x) as i64,
                dir_y: (t.transform->0.y - s.transform->0.y) as i64,
            },
        ),
        faction: s.faction,
        drawable: Some(Drawable::Projectile),
        shooter: None,
        collider: Some(
            Collider {
                half_width: PROJECTILE_HALF_EXTENT,
                half_height: PROJECTILE_HALF_EXTENT,
            },
        ),
        projectile: Some(Projectile {  }),
        attacker: Some(Attacker { damage: PROJECTILE_DAMAGE }),
        health: None,
        spawner: None,
        waypoint: None,
        enemy: None,
        base: None,
    }
}

/// How many shooters among the first `i` fire this frame.
pub open spec fn shots_upto(ents: Seq<EntityRec>, i: int) -> nat
    decreases i,
{
    if i <= 0 {
        0
    } else {
        shots_upto(ents, i - 1) + if shooter_fires(ents, i - 1) {
            1 as nat
        } else {
            0 as nat
        }
    }
}

/// At most one shot per shooter.
pub proof fn lemma_shots_upto_bound(ents: Seq<EntityRec>, i: int)
    requires
        0 <= i,
    ensures
        shots_upto(ents, i) <= i,
    decreases i,
{
    if i > 0 {
        lemma_shots_upto_bound(ents, i - 1);
    }
}

/// The projectiles fired by the first `i` shooters, in store order, with
/// consecutive ids from `base`.
pub open spec fn shot_seq(ents: Seq<EntityRec>, i: int, base: u64) -> Seq<EntityRec>
    decreases i,
{
    if i <= 0 {
        Seq::empty()
    } else {
        shot_seq(ents, i - 1, base) + if shooter_fires(ents, i - 1) {
            seq![
                projectile_rec(
                    ents[i - 1],
                    ents[first_target(ents, i - 1)->0],
                    (base + shots_upto(ents, i - 1)) as u64,
                ),
            ]
        } else {
            Seq::empty()
        }
    }
}

/// The world after the shooting system: cooldowns advance per
/// `shooter_rec`, and each shot defers one projectile under a fresh id.
pub open spec fn shooter_spec(v: WorldView, dt: u64) -> WorldView {
    WorldView {
        ents: Seq::new(v.ents.len(), |i: int| shooter_rec(v.ents, i, dt)),
        pending: v.pending + shot_seq(v.ents, v.ents.len() as int, v.next_id),
        next_id: (v.next_id + shots_upto(v.ents, v.ents.len() as int)) as u64,
        ..v
    }
}

/// The position a shot is aimed at.
struct ShotChoice {
    tx: i64,
    ty: i64,
}

/// The first qualifying target for shooter `i`, in store order.
fn find_target(ents: &Vec<EntityRec>, i: usize) -> (r: Option<usize>)
    requires
        i < ents@.len(),
        forall|k: int| 0 <= k < ents@.len() ==> (#[trigger] ents@[k]).wf(),
        shooter_subject(ents@[i as int]),
    ensures
        match r {
            Some(k) => first_target(ents@, i as int) == Some(k as int),
            None => first_target(ents@, i as int) is None,
        },
{
    let s = ents[i];
    let st = s.transform.unwrap();
    let radius = s.shooter.unwrap().attack_radius;
    proof {
        assert((radius as int) * (radius as int) <= u128::MAX) by (nonlinear_arith)
            requires
                radius <= u64::MAX,
        ;
    }
    let radius_sq: u128 = (radius as u128) * (radius as u128);
    let mut j: usize = 0;
    while j < ents.len()
        invariant
            i < ents@.len(),
            forall|k: int| 0 <= k < ents@.len() ==> (#[trigger] ents@[k]).wf(),
            shooter_subject(ents@[i as int]),
            s == ents@[i as int],
            st == s.transform->0,
            radius == s.shooter->0.attack_radius,
            radius_sq == (radius as int) * (radius as int),
            j <= ents@.len(),
            first_target_from(ents@, i as int, 0) == first_target_from(ents@, i as int, j as int),
        decreases ents@.len() - j,
    {
        let t = &ents[j];
        if t.alive && t.transform.is_some() && t.faction.is_some() {
            let tt = t.transform.unwrap();
            let same = match (t.faction.unwrap(), s.faction.unwrap()) {
                (crate::components::Faction::Player, crate::components::Faction::Player) => true,
                (crate::components::Faction::Enemy, crate::components::Faction::Enemy) => true,
                _ => false,
            };
            if !same {
                let d = dist_sq_exec(st.x, st.y, tt.x, tt.y);
                if d <= radius_sq {
                    return Some(j);
                }
            }
        }
        j = j + 1;
    }
    None
}

/// Shooting changes only shooter cooldowns and defers projectile
/// creations, per `shooter_spec`.
pub struct ShooterSystem;

impl ShooterSystem {
    /// Run the shooting system for one frame.
    pub fn run(w: &mut World, dt: u64)
        requires
            old(w)@.wf(),
            dt <= DT_MAX,
            old(w)@.next_id + old(w)@.ents.len() <= u64::MAX,
        ensures
            final(w)@ == shooter_spec(old(w)@, dt),
            final(w)@.wf(),
    {
        let ghost v0 = old(w)@;
        // First pass: decide who fires and where, against the frame-start
        // snapshot.
        let mut choices: Vec<Option<ShotChoice>> = Vec::new();
        let mut i: usize = 0;
        while i < w.ents.len()
            invariant
                v0.wf(),
                w@ == v0,
                i <= v0.ents.len(),
                choices@.len() == i,
                forall|j: int|
                    0 <= j < i ==> match #[trigger] choices@[j] {
                        Some(c) => shooter_fires(v0.ents, j) && (first_target(v0.ents, j)
                            matches Some(ti) && 0 <= ti < v0.ents.len() && v0.ents[ti].transform
                            == Some(crate::components::Transform { x: c.tx, y: c.ty })),
                        None => !shooter_fires(v0.ents, j),
                    },
            decreases v0.ents.len() - i,
        {
            let r = w.ents[i];
            if r.alive && r.shooter.is_some() && r.transform.is_some() && r.faction.is_some()
                && r.shooter.unwrap().cooldown == 0 {
                match find_target(&w.ents, i) {
                    Some(ti) => {
                        proof {
                            lemma_first_target_from(v0.ents, i as int, 0);
                        }
                        let trec = w.ents[ti];
                        let tt = trec.transform.unwrap();
                        choices.push(Some(ShotChoice { tx: tt.x, ty: tt.y }));
                    },
                    None => {
                        choices.push(None);
                    },
                }
            } else {
                choices.push(None);
            }
            i = i + 1;
        }
        // Second pass: advance cooldowns and defer the projectiles.
        let mut k: usize = 0;
        while k < w.ents.len()
            invariant
                v0.wf(),
                w@.wf(),
                dt <= DT_MAX,
                v0.next_id + v0.ents.len() <= u64::MAX,
                k <= v0.ents.len(),
                w@.ents.len() == v0.ents.len(),
                choices@.len() == v0.ents.len(),
                v0 == (WorldView {
                    ents: v0.ents,
                    pending: v0.pending,
                    next_id: v0.next_id,
                    ..w@
                }),
                w@.next_id == v0.next_id + shots_upto(v0.ents, k as int),
                w@.pending == v0.pending + shot_seq(v0.ents, k as int, v0.next_id),
                forall|j: int|
                    0 <= j < v0.ents.len() ==> match #[trigger] choices@[j] {
                        Some(c) => shooter_fires(v0.ents, j) && (first_target(v0.ents, j)
                            matches Some(ti) && 0 <= ti < v0.ents.len() && v0.ents[ti].transform
                            == Some(crate::components::Transform { x: c.tx, y: c.ty })),
                        None => !shooter_fires(v0.ents, j),
                    },
                forall|j: int| 0 <= j < k ==> #[trigger] w@.ents[j] == shooter_rec(v0.ents, j, dt),
                forall|j: int| k <= j < v0.ents.len() ==> #[trigger] w@.ents[j] == v0.ents[j],
            decreases v0.ents.len() - k,
        {
            let r = w.ents[k];
            proof {
                assert(r == v0.ents[k as int]);
                assert(r.wf());
                lemma_shots_upto_bound(v0.ents, k as int);
            }
            let ghost w_before = w@;
            if r.alive && r.shooter.is_some() && r.transform.is_some() && r.faction.is_some() {
                let sh = r.shooter.unwrap();
                if sh.cooldown > 0 {
                    let cooled = EntityRec {
                        shooter: Some(
                            Shooter { cooldown: sat_sub_u64(sh.cooldown, dt), ..sh },
                        ),
                        ..r
                    };
                    w.ents.set(k, cooled);
                    proof {
                        assert(cooled == shooter_rec(v0.ents, k as int, dt));
                        lemma_wf_pointwise(w_before, w@);
                    }
                } else {
                    match &choices[k] {
                        Some(c) => {
                            let st = r.transform.unwrap();
                            proof {
                                let ti = first_target(v0.ents, k as int)->0;
                                assert(v0.ents[ti].wf());
                                assert(v0.ents[ti].transform->0.wf());
                            }
                            let fired = EntityRec {
                                shooter: Some(
                                    Shooter { cooldown: sh.seconds_per_attack, ..sh },
                                ),
                                ..r
                            };
                            w.ents.set(k, fired);
                            proof {
                                assert(fired == shooter_rec(v0.ents, k as int, dt));
                                lemma_wf_pointwise(w_before, w@);
                            }
                            let shot = EntityRec {
                                velocity: Some(
                                    Velocity {
                                        speed: PROJECTILE_SPEED,
                                        dir_x: c.tx - st.x,
                                        dir_y: c.ty - st.y,
                                    },
                                ),
                                faction: r.faction,
                                drawable: Some(Drawable::Projectile),
                                collider: Some(
                                    Collider {
                                        half_width: PROJECTILE_HALF_EXTENT,
                                        half_height: PROJECTILE_HALF_EXTENT,
                                    },
                                ),
                                projectile: Some(Projectile {  }),
                                attacker: Some(Attacker { damage: PROJECTILE_DAMAGE }),
                                transform: r.transform,
                                ..EntityRec::empty(0)
                            };
                            let _ = w.defer_create(shot);
                            proof {
                                let ti = first_target(v0.ents, k as int)->0;
                                let base = v0.next_id;
                                let nid = (base + shots_upto(v0.ents, k as int)) as u64;
                                assert(w@.pending.last() == projectile_rec(
                                    v0.ents[k as int],
                                    v0.ents[ti],
                                    nid,
                                ));
                                assert(w@.pending =~= v0.pending + shot_seq(
                                    v0.ents,
                                    k as int + 1,
                                    base,
                                ));
                            }
                        },
                        None => {
                            proof {
                                assert(w@.ents[k as int] == shooter_rec(v0.ents, k as int, dt));
                                assert(w@.pending =~= v0.pending + shot_seq(
                                    v0.ents,
                                    k as int + 1,
                                    v0.next_id,
                                ));
                            }
                        },
                    }
                }
            } else {
                proof {
                    assert(w@.ents[k as int] == shooter_rec(v0.ents, k as int, dt));
                    assert(w@.pending =~= v0.pending + shot_seq(
                        v0.ents,
                        k as int + 1,
                        v0.next_id,
                    ));
                }
            }
            k = k + 1;
        }
        proof {
            assert(final(w)@.ents =~= shooter_spec(v0, dt).ents);
            assert(final(w)@ =~= shooter_spec(v0, dt));
        }
    }
}

} // verus!
