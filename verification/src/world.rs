//! The entity store and its shared resources.
//!
//! An entity is a record of optional components under a unique id.  Systems
//! never add or remove records while iterating: deletion marks a record
//! dead at once (component lookups on it then fail), and creation goes to a
//! pending list.  `maintain` applies both — it drops dead records and
//! appends the pending ones — once before a tick's pipeline and once after
//! it.

use vstd::prelude::*;
use crate::components::{
    Attacker, Base, Collider, Drawable, Enemy, Faction, Health, Projectile, Shooter, Spawner,
    Transform, Velocity, Waypoint, START_BITS,
};
use crate::grid::{Grid, GridView};
use crate::resources::{BuildResources, CollisionEvent, DeathEvent, PlayState};

verus! {

/// One entity: a unique id, a liveness flag, and an open set of optional
/// components.
#[derive(Clone, Copy, Debug, PartialEq, Eq, Structural)]
pub struct EntityRec {
    pub id: u64,
    pub alive: bool,
    pub transform: Option<Transform>,
    pub velocity: Option<Velocity>,
    pub faction: Option<Faction>,
    pub drawable: Option<Drawable>,
    pub shooter: Option<Shooter>,
    pub collider: Option<Collider>,
    pub projectile: Option<Projectile>,
    pub attacker: Option<Attacker>,
    pub health: Option<Health>,
    pub spawner: Option<Spawner>,
    pub waypoint: Option<Waypoint>,
    pub enemy: Option<Enemy>,
    pub base: Option<Base>,
}

impl EntityRec {
    /// A live record with the given id and no components.
    pub fn empty(id: u64) -> (r: EntityRec)
        ensures
            r == EntityRec::empty_spec(id),
    {
        EntityRec {
            id,
            alive: true,
            transform: None,
            velocity: None,
            faction: None,
            drawable: None,
            shooter: None,
            collider: None,
            projectile: None,
            attacker: None,
            health: None,
            spawner: None,
            waypoint: None,
            enemy: None,
            base: None,
        }
    }

    /// The live, component-free record with the given id.
    pub open spec fn empty_spec(id: u64) -> EntityRec {
        EntityRec {
            id,
            alive: true,
            transform: None,
            velocity: None,
            faction: None,
            drawable: None,
            shooter: None,
            collider: None,
            projectile: None,
            attacker: None,
            health: None,
            spawner: None,
            waypoint: None,
            enemy: None,
            base: None,
        }
    }

    /// Every component that carries geometry lies within the world bounds.
    pub open spec fn wf(self) -> bool {
        &&& (self.transform matches Some(t) ==> t.wf())
        &&& (self.velocity matches Some(v) ==> v.wf())
        &&& (self.collider matches Some(c) ==> c.wf())
    }
}

/// No two records share an id.
pub open spec fn distinct_ids(s: Seq<EntityRec>) -> bool {
    forall|i: int, j: int| 0 <= i < j < s.len() ==> s[i].id != s[j].id
}

/// Every record is well formed and its id lies below `bound`.
pub open spec fn recs_wf(s: Seq<EntityRec>, bound: u64) -> bool {
    forall|i: int| 0 <= i < s.len() ==> (#[trigger] s[i]).wf() && s[i].id < bound
}

/// The live records of `s`, in order.
pub open spec fn surviving(s: Seq<EntityRec>) -> Seq<EntityRec>
    decreases s.len(),
{
    if s.len() == 0 {
        Seq::empty()
    } else if s.last().alive {
        surviving(s.drop_last()).push(s.last())
    } else {
        surviving(s.drop_last())
    }
}

/// Some record of `s` carries this id.
pub open spec fn has_id(s: Seq<EntityRec>, id: u64) -> bool {
    exists|i: int| 0 <= i < s.len() && (#[trigger] s[i]).id == id
}

/// Some live record of `s` carries this id.
pub open spec fn has_live_id(s: Seq<EntityRec>, id: u64) -> bool {
    exists|i: int| 0 <= i < s.len() && (#[trigger] s[i]).alive && s[i].id == id
}

/// `surviving` keeps exactly the live records: membership, id bounds,
/// distinctness, and the live ids all carry over.
pub proof fn lemma_surviving(s: Seq<EntityRec>)
    ensures
        surviving(s).len() <= s.len(),
        forall|k: int| 0 <= k < surviving(s).len() ==> s.contains(#[trigger] surviving(s)[k]),
        forall|k: int| 0 <= k < surviving(s).len() ==> (#[trigger] surviving(s)[k]).alive,
        distinct_ids(s) ==> distinct_ids(surviving(s)),
        forall|id: u64| #[trigger] has_id(surviving(s), id) <==> has_live_id(s, id),
    decreases s.len(),
{
    let sv = surviving(s);
    if s.len() == 0 {
        assert forall|id: u64| #[trigger] has_id(sv, id) implies has_live_id(s, id) by {}
        assert forall|id: u64| has_live_id(s, id) implies #[trigger] has_id(sv, id) by {}
    } else {
        let d = s.drop_last();
        lemma_surviving(d);
        let dv = surviving(d);
        assert(forall|k: int| 0 <= k < d.len() ==> #[trigger] d[k] == s[k]);
        // Membership carries over from the prefix, plus possibly the last
        // element.
        assert forall|k: int| 0 <= k < sv.len() implies s.contains(#[trigger] sv[k]) by {
            if s.last().alive && k == sv.len() - 1 {
                assert(sv[k] == s[s.len() - 1]);
            } else {
                assert(sv[k] == dv[k]);
                assert(d.contains(dv[k]));
                let i = choose|i: int| 0 <= i < d.len() && d[i] == dv[k];
                assert(s[i] == sv[k]);
            }
        }
        if distinct_ids(s) {
            assert forall|i: int, j: int| 0 <= i < j < d.len() implies d[i].id != d[j].id by {
                assert(d[i] == s[i] && d[j] == s[j]);
            }
            assert(distinct_ids(d));
            assert(distinct_ids(dv));
            assert forall|i: int, j: int| 0 <= i < j < sv.len() implies sv[i].id != sv[j].id by {
                if s.last().alive && j == sv.len() - 1 {
                    assert(sv[i] == dv[i] && sv[j] == s.last());
                    assert(d.contains(dv[i]));
                    let m = choose|m: int| 0 <= m < d.len() && d[m] == dv[i];
                    assert(s[m] == dv[i] && m < s.len() - 1);
                    assert(s[m].id != s[s.len() - 1].id);
                } else {
                    assert(sv[i] == dv[i] && sv[j] == dv[j]);
                }
            }
        }
        assert forall|id: u64| #[trigger] has_id(sv, id) implies has_live_id(s, id) by {
            let k = choose|k: int| 0 <= k < sv.len() && (#[trigger] sv[k]).id == id;
            assert(s.contains(sv[k]));
            let i = choose|i: int| 0 <= i < s.len() && s[i] == sv[k];
            assert(s[i].alive && s[i].id == id);
        }
        assert forall|id: u64| has_live_id(s, id) implies #[trigger] has_id(sv, id) by {
            let i = choose|i: int| 0 <= i < s.len() && (#[trigger] s[i]).alive && s[i].id == id;
            if i == s.len() - 1 {
                assert(s.last().alive);
                assert(sv == dv.push(s.last()));
                assert(sv[sv.len() - 1].id == id);
            } else {
                assert(d[i] == s[i]);
                assert(d[i].alive && d[i].id == id);
                assert(has_live_id(d, id));
                assert(has_id(dv, id));
                let k = choose|k: int| 0 <= k < dv.len() && (#[trigger] dv[k]).id == id;
                assert(sv[k] == dv[k]);
                assert(sv[k].id == id);
            }
        }
    }
}

/// A pointwise change of the store that keeps every id and every record
/// well formed keeps the whole world well formed.
pub proof fn lemma_wf_pointwise(v0: WorldView, v1: WorldView)
    requires
        v0.wf(),
        v1.pending == v0.pending,
        v1.next_id == v0.next_id,
        v1.grid == v0.grid,
        v1.ents.len() == v0.ents.len(),
        forall|i: int| 0 <= i < v1.ents.len() ==> (#[trigger] v1.ents[i]).id == v0.ents[i].id,
        forall|i: int| 0 <= i < v1.ents.len() ==> (#[trigger] v1.ents[i]).wf(),
    ensures
        v1.wf(),
{
    assert forall|i2: int, j2: int|
        0 <= i2 < j2 < (v1.ents + v1.pending).len() implies (v1.ents + v1.pending)[i2].id != (
    v1.ents + v1.pending)[j2].id by {
        let all_old = v0.ents + v0.pending;
        let all_new = v1.ents + v1.pending;
        let n = v0.ents.len() as int;
        if i2 < n {
            assert(all_new[i2] == v1.ents[i2] && all_old[i2] == v0.ents[i2]);
        } else {
            assert(all_new[i2] == v1.pending[i2 - n] && all_old[i2] == v0.pending[i2 - n]);
        }
        if j2 < n {
            assert(all_new[j2] == v1.ents[j2] && all_old[j2] == v0.ents[j2]);
        } else {
            assert(all_new[j2] == v1.pending[j2 - n] && all_old[j2] == v0.pending[j2 - n]);
        }
        assert(all_old[i2].id != all_old[j2].id);
    }
}

/// Mathematical model of a world.
#[verifier::ext_equal]
pub struct WorldView {
    pub next_id: u64,
    pub ents: Seq<EntityRec>,
    pub pending: Seq<EntityRec>,
    pub play_state: PlayState,
    pub build_resources: BuildResources,
    pub grid: GridView,
    pub collision_events: Seq<CollisionEvent>,
    pub death_events: Seq<DeathEvent>,
}

impl WorldView {
    /// Ids are unique and below the allocation cursor, all records are
    /// well formed, pending records are live, and the grid is well formed.
    pub open spec fn wf(self) -> bool {
        &&& recs_wf(self.ents, self.next_id)
        &&& recs_wf(self.pending, self.next_id)
        &&& distinct_ids(self.ents + self.pending)
        &&& (forall|i: int| 0 <= i < self.pending.len() ==> (#[trigger] self.pending[i]).alive)
        &&& self.grid.wf()
    }

    /// Applying the deferred mutations: dead records go away, pending
    /// records join the store.
    pub open spec fn maintain_spec(self) -> WorldView {
        WorldView { ents: surviving(self.ents) + self.pending, pending: Seq::empty(), ..self }
    }

    /// Dropping the per-tick transient event buffers.
    pub open spec fn clear_events_spec(self) -> WorldView {
        WorldView { collision_events: Seq::empty(), death_events: Seq::empty(), ..self }
    }
}

/// First index holding a live record with this id, scanning from `i`.
pub open spec fn find_alive_from(s: Seq<EntityRec>, id: u64, i: int) -> Option<int>
    decreases s.len() - i,
{
    if i < 0 || i >= s.len() {
        None
    } else if s[i].alive && s[i].id == id {
        Some(i)
    } else {
        find_alive_from(s, id, i + 1)
    }
}

/// First index holding a live record with this id.
pub open spec fn find_alive(s: Seq<EntityRec>, id: u64) -> Option<int> {
    find_alive_from(s, id, 0)
}

/// First index holding a record with this id, live or dead.
pub open spec fn find_raw_from(s: Seq<EntityRec>, id: u64, i: int) -> Option<int>
    decreases s.len() - i,
{
    if i < 0 || i >= s.len() {
        None
    } else if s[i].id == id {
        Some(i)
    } else {
        find_raw_from(s, id, i + 1)
    }
}

/// First index holding a record with this id, live or dead.
pub open spec fn find_raw(s: Seq<EntityRec>, id: u64) -> Option<int> {
    find_raw_from(s, id, 0)
}

/// A live record carrying a waypoint with sequence id `wid`.
pub open spec fn is_waypoint_with(r: EntityRec, wid: u64) -> bool {
    r.alive && (r.waypoint matches Some(w) && w.id == wid)
}

/// Index of the last live record whose waypoint has sequence id `wid` —
/// when several waypoints share an id, the scan keeps the latest.
pub open spec fn find_waypoint_last(s: Seq<EntityRec>, wid: u64) -> Option<int>
    decreases s.len(),
{
    if s.len() == 0 {
        None
    } else if is_waypoint_with(s.last(), wid) {
        Some(s.len() - 1)
    } else {
        find_waypoint_last(s.drop_last(), wid)
    }
}

/// What `find_alive_from` returns lies in range, matches, and is the
/// first match at or after `i`.
pub proof fn lemma_find_alive_from(s: Seq<EntityRec>, id: u64, i: int)
    requires
        0 <= i,
    ensures
        find_alive_from(s, id, i) matches Some(k) ==> i <= k < s.len() && s[k].alive && s[k].id
            == id,
        find_alive_from(s, id, i) is None ==> forall|k: int|
            i <= k < s.len() ==> !((#[trigger] s[k]).alive && s[k].id == id),
    decreases s.len() - i,
{
    if 0 <= i < s.len() && !(s[i].alive && s[i].id == id) {
        lemma_find_alive_from(s, id, i + 1);
    }
}

/// What `find_raw_from` returns lies in range and matches.
pub proof fn lemma_find_raw_from(s: Seq<EntityRec>, id: u64, i: int)
    requires
        0 <= i,
    ensures
        find_raw_from(s, id, i) matches Some(k) ==> i <= k < s.len() && s[k].id == id,
        find_raw_from(s, id, i) is None ==> forall|k: int|
            i <= k < s.len() ==> (#[trigger] s[k]).id != id,
    decreases s.len() - i,
{
    if 0 <= i < s.len() && s[i].id != id {
        lemma_find_raw_from(s, id, i + 1);
    }
}

/// What `find_waypoint_last` returns lies in range, matches, and no later
/// record matches; `None` means nothing matches.
pub proof fn lemma_find_waypoint_last(s: Seq<EntityRec>, wid: u64)
    ensures
        find_waypoint_last(s, wid) matches Some(k) ==> 0 <= k < s.len() && is_waypoint_with(
            s[k], wid) && forall|m: int| k < m < s.len() ==> !is_waypoint_with(#[trigger] s[m], wid),
        find_waypoint_last(s, wid) is None ==> forall|m: int|
            0 <= m < s.len() ==> !is_waypoint_with(#[trigger] s[m], wid),
    decreases s.len(),
{
    if s.len() > 0 && !is_waypoint_with(s.last(), wid) {
        lemma_find_waypoint_last(s.drop_last(), wid);
        assert(forall|m: int| 0 <= m < s.len() - 1 ==> s.drop_last()[m] == s[m]);
    }
}

/// The entity store with its shared resources.
pub struct World {
    pub next_id: u64,
    pub ents: Vec<EntityRec>,
    pub pending: Vec<EntityRec>,
    pub play_state: PlayState,
    pub build_resources: BuildResources,
    pub grid: Grid,
    pub collision_events: Vec<CollisionEvent>,
    pub death_events: Vec<DeathEvent>,
}

impl View for World {
    type V = WorldView;

    open spec fn view(&self) -> WorldView {
        WorldView {
            next_id: self.next_id,
            ents: self.ents@,
            pending: self.pending@,
            play_state: self.play_state,
            build_resources: self.build_resources,
            grid: self.grid@,
            collision_events: self.collision_events@,
            death_events: self.death_events@,
        }
    }
}

impl World {
    /// An empty world in the `Play` state with the starting currency and
    /// the given grid.
    pub fn new(grid: Grid) -> (w: World)
        requires
            grid@.wf(),
        ensures
            w@ == (WorldView {
                next_id: 0,
                ents: Seq::empty(),
                pending: Seq::empty(),
                play_state: PlayState::Play,
                build_resources: BuildResources { bits: START_BITS },
                grid: grid@,
                collision_events: Seq::empty(),
                death_events: Seq::empty(),
            }),
            w@.wf(),
    {
        let w = World {
            next_id: 0,
            ents: Vec::new(),
            pending: Vec::new(),
            play_state: PlayState::Play,
            build_resources: BuildResources { bits: START_BITS },
            grid,
            collision_events: Vec::new(),
            death_events: Vec::new(),
        };
        proof {
            assert(w@.ents + w@.pending =~= Seq::<EntityRec>::empty());
        }
        w
    }

    /// Clear the store and reset every resource to its level-start
    /// default, keeping only the given grid: what an external level reload
    /// performs before the next tick.
    pub fn reset(&mut self, grid: Grid)
        requires
            grid@.wf(),
        ensures
            final(self)@ == (WorldView {
                next_id: 0,
                ents: Seq::empty(),
                pending: Seq::empty(),
                play_state: PlayState::Play,
                build_resources: BuildResources { bits: START_BITS },
                grid: grid@,
                collision_events: Seq::empty(),
                death_events: Seq::empty(),
            }),
            final(self)@.wf(),
    {
        *self = World::new(grid);
    }

    /// Append a freshly allocated live record to the store at once;
    /// returns its id.  For level authoring, which runs between ticks.
    pub fn create_now(&mut self, rec: EntityRec) -> (id: u64)
        requires
            old(self)@.wf(),
            rec.wf(),
            old(self)@.next_id < u64::MAX,
        ensures
            id == old(self)@.next_id,
            final(self)@ == (WorldView {
                next_id: (old(self)@.next_id + 1) as u64,
                ents: old(self)@.ents.push(
                    EntityRec { id: old(self)@.next_id, alive: true, ..rec },
                ),
                ..old(self)@
            }),
            final(self)@.wf(),
    {
        let id = self.next_id;
        let new_rec = EntityRec { id, alive: true, ..rec };
        self.ents.push(new_rec);
        self.next_id = self.next_id + 1;
        proof {
            let oe = old(self)@.ents;
            let op = old(self)@.pending;
            let all_old = oe + op;
            let all_new = self@.ents + self@.pending;
            // The new record sits between the old store and the pending
            // list; every other position maps into the old concatenation.
            assert forall|i: int, j: int| 0 <= i < j < all_new.len() implies (#[trigger] all_new[
                i]).id != (#[trigger] all_new[j]).id by {
                let n = oe.len() as int;
                if i < n {
                    assert(all_new[i] == oe[i] && all_old[i] == oe[i]);
                } else if i == n {
                    assert(all_new[i] == new_rec);
                } else {
                    assert(all_new[i] == op[i - n - 1] && all_old[i - 1] == op[i - n - 1]);
                }
                if j < n {
                    assert(all_new[j] == oe[j] && all_old[j] == oe[j]);
                } else if j == n {
                    assert(all_new[j] == new_rec);
                } else {
                    assert(all_new[j] == op[j - n - 1] && all_old[j - 1] == op[j - n - 1]);
                }
                if i < n && j < n {
                    assert(all_old[i].id != all_old[j].id);
                } else if i < n && j == n {
                    assert(all_old[i].id < id);
                } else if i < n && j > n {
                    assert(all_old[i].id != all_old[j - 1].id);
                } else if i == n {
                    assert(all_old[j - 1].id < id);
                } else {
                    assert(all_old[i - 1].id != all_old[j - 1].id);
                }
            }
        }
        id
    }

    /// Defer the creation of a freshly allocated live record to the next
    /// `maintain`; returns its id.
    pub fn defer_create(&mut self, rec: EntityRec) -> (id: u64)
        requires
            old(self)@.wf(),
            rec.wf(),
            old(self)@.next_id < u64::MAX,
        ensures
            id == old(self)@.next_id,
            final(self)@ == (WorldView {
                next_id: (old(self)@.next_id + 1) as u64,
                pending: old(self)@.pending.push(
                    EntityRec { id: old(self)@.next_id, alive: true, ..rec },
                ),
                ..old(self)@
            }),
            final(self)@.wf(),
    {
        let id = self.next_id;
        let new_rec = EntityRec { id, alive: true, ..rec };
        self.pending.push(new_rec);
        self.next_id = self.next_id + 1;
        proof {
            let oe = old(self)@.ents;
            let op = old(self)@.pending;
            assert(self@.ents + self@.pending =~= (oe + op).push(new_rec));
            assert forall|i: int, j: int|
                0 <= i < j < (self@.ents + self@.pending).len() implies (self@.ents
                + self@.pending)[i].id != (self@.ents + self@.pending)[j].id by {
                let all_old = oe + op;
                if j < all_old.len() {
                    assert(all_old[i].id != all_old[j].id);
                } else {
                    assert((self@.ents + self@.pending)[j] == new_rec);
                    assert(all_old[i].id < old(self)@.next_id);
                }
            }
        }
        id
    }

    /// Apply the deferred mutations: drop dead records, then append the
    /// pending creations.
    pub fn maintain(&mut self)
        requires
            old(self)@.wf(),
        ensures
            final(self)@ == old(self)@.maintain_spec(),
            final(self)@.wf(),
    {
        let ghost oe = self.ents@;
        let mut kept: Vec<EntityRec> = Vec::new();
        let mut i: usize = 0;
        while i < self.ents.len()
            invariant
                i <= self.ents@.len(),
                self.ents@ == oe,
                kept@ == surviving(oe.subrange(0, i as int)),
            decreases self.ents@.len() - i,
        {
            let r = self.ents[i];
            proof {
                assert(oe.subrange(0, i as int + 1).drop_last() =~= oe.subrange(0, i as int));
                assert(oe.subrange(0, i as int + 1).last() == oe[i as int]);
            }
            if r.alive {
                kept.push(r);
            }
            i = i + 1;
        }
        proof {
            assert(oe.subrange(0, oe.len() as int) =~= oe);
        }
        let mut j: usize = 0;
        while j < self.pending.len()
            invariant
                j <= self.pending@.len(),
                self.pending@ == old(self)@.pending,
                kept@ == surviving(oe) + self.pending@.subrange(0, j as int),
            decreases self.pending@.len() - j,
        {
            let r = self.pending[j];
            proof {
                assert(surviving(oe) + self.pending@.subrange(0, j as int + 1) =~= (surviving(oe)
                    + self.pending@.subrange(0, j as int)).push(self.pending@[j as int]));
            }
            kept.push(r);
            j = j + 1;
        }
        proof {
            assert(surviving(oe) + self.pending@.subrange(0, self.pending@.len() as int)
                =~= surviving(oe) + self.pending@);
        }
        self.ents = kept;
        self.pending = Vec::new();
        proof {
            lemma_surviving(oe);
            let op = old(self)@.pending;
            let all_old = oe + op;
            assert forall|i3: int, j3: int| 0 <= i3 < j3 < oe.len() implies (#[trigger] oe[
                i3]).id != (#[trigger] oe[j3]).id by {
                assert(all_old[i3] == oe[i3] && all_old[j3] == oe[j3]);
            }
            assert(distinct_ids(oe));
            // Well-formedness and id bounds carry over by membership.
            assert forall|i2: int| 0 <= i2 < self@.ents.len() implies (#[trigger] self@.ents[
                i2]).wf() && self@.ents[i2].id < self@.next_id by {
                if i2 < surviving(oe).len() {
                    let k = choose|k: int| 0 <= k < oe.len() && oe[k] == surviving(oe)[i2];
                    assert(oe[k].wf() && oe[k].id < old(self)@.next_id);
                } else {
                    assert(self@.ents[i2] == op[i2 - surviving(oe).len()]);
                }
            }
            // Distinctness: surviving ids are a subset of the old store's
            // ids, and pending ids were already distinct from them.
            assert forall|i2: int, j2: int|
                0 <= i2 < j2 < (self@.ents + self@.pending).len() implies (self@.ents
                + self@.pending)[i2].id != (self@.ents + self@.pending)[j2].id by {
                let sv = surviving(oe);
                let a = (self@.ents + self@.pending)[i2];
                let b = (self@.ents + self@.pending)[j2];
                assert(a == self@.ents[i2] && b == self@.ents[j2]);
                assert(distinct_ids(oe));
                assert(distinct_ids(sv));
                if i2 < sv.len() && j2 < sv.len() {
                    assert(sv[i2].id != sv[j2].id);
                } else if i2 < sv.len() {
                    // a survives from the store, b is pending.
                    let k = choose|k: int| 0 <= k < oe.len() && oe[k] == sv[i2];
                    assert(all_old[k] == oe[k]);
                    assert(all_old[oe.len() + j2 - sv.len()] == op[j2 - sv.len()]);
                    assert(oe[k].id != op[j2 - sv.len()].id);
                } else {
                    assert(all_old[oe.len() + i2 - sv.len()] == op[i2 - sv.len()]);
                    assert(all_old[oe.len() + j2 - sv.len()] == op[j2 - sv.len()]);
                }
            }
            assert(final(self)@ =~= old(self)@.maintain_spec());
        }
    }

    /// Drop the per-tick transient event buffers.
    pub fn clear_events(&mut self)
        requires
            old(self)@.wf(),
        ensures
            final(self)@ == old(self)@.clear_events_spec(),
            final(self)@.wf(),
    {
        self.collision_events = Vec::new();
        self.death_events = Vec::new();
        proof {
            assert(final(self)@ =~= old(self)@.clear_events_spec());
        }
    }
}

/// First index holding a live record with this id.
pub fn find_alive_idx(ents: &Vec<EntityRec>, id: u64) -> (r: Option<usize>)
    ensures
        match r {
            Some(k) => find_alive(ents@, id) == Some(k as int),
            None => find_alive(ents@, id) is None,
        },
{
    let mut i: usize = 0;
    while i < ents.len()
        invariant
            i <= ents@.len(),
            find_alive_from(ents@, id, 0) == find_alive_from(ents@, id, i as int),
        decreases ents@.len() - i,
    {
        let r = &ents[i];
        if r.alive && r.id == id {
            return Some(i);
        }
        i = i + 1;
    }
    None
}

/// First index holding a record with this id, live or dead.
pub fn find_raw_idx(ents: &Vec<EntityRec>, id: u64) -> (r: Option<usize>)
    ensures
        match r {
            Some(k) => find_raw(ents@, id) == Some(k as int),
            None => find_raw(ents@, id) is None,
        },
{
    let mut i: usize = 0;
    while i < ents.len()
        invariant
            i <= ents@.len(),
            find_raw_from(ents@, id, 0) == find_raw_from(ents@, id, i as int),
        decreases ents@.len() - i,
    {
        let r = &ents[i];
        if r.id == id {
            return Some(i);
        }
        i = i + 1;
    }
    None
}

/// Index of the last live record whose waypoint has sequence id `wid`.
pub fn find_waypoint_idx(ents: &Vec<EntityRec>, wid: u64) -> (r: Option<usize>)
    ensures
        match r {
            Some(k) => find_waypoint_last(ents@, wid) == Some(k as int),
            None => find_waypoint_last(ents@, wid) is None,
        },
{
    let mut best: Option<usize> = None;
    let mut i: usize = 0;
    while i < ents.len()
        invariant
            i <= ents@.len(),
            match best {
                Some(k) => find_waypoint_last(ents@.subrange(0, i as int), wid) == Some(k as int)
                    && k < i,
                None => find_waypoint_last(ents@.subrange(0, i as int), wid) is None,
            },
        decreases ents@.len() - i,
    {
        let r = &ents[i];
        proof {
            assert(ents@.subrange(0, i as int + 1).drop_last() =~= ents@.subrange(0, i as int));
            assert(ents@.subrange(0, i as int + 1).last() == ents@[i as int]);
        }
        let hit = r.alive && match r.waypoint {
            Some(w) => w.id as u64 == wid,
            None => false,
        };
        if hit {
            best = Some(i);
        }
        i = i + 1;
    }
    proof {
        assert(ents@.subrange(0, ents@.len() as int) =~= ents@);
    }
    best
}

} // verus!
