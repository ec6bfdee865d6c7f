//! The plane: a registry of objects under unique identifiers, the index of
//! those that collide, the all-pairs collision scan, and the tick that moves
//! everything.
use std::collections::HashMap;
use std::collections::HashSet;
use vstd::prelude::*;
use vstd::std_specs::iter::IteratorSpec;
use crate::object::{boxes_meet, Object};

verus! {

broadcast use vstd::std_specs::hash::group_hash_axioms;

/// Identifies an object within one plane. Issued from 1 upwards, never reused.
pub type Id = u32;

/// Two objects whose boxes meet; the order of the two is of no meaning.
pub type Collision = (Id, Id);

/// Owns the objects, each under its identifier, and keeps the index of the
/// collidable ones in step with them.
pub struct Plane {
    objects: HashMap<Id, Object>,
    collide_obj_ids: HashSet<Id>,
    id_counter: u32,
}

/// Two collisions that name the same unordered pair of identifiers.
pub open spec fn same_pair(p: Collision, q: Collision) -> bool {
    (p.0 == q.0 && p.1 == q.1) || (p.0 == q.1 && p.1 == q.0)
}

/// What `attach_object` does: `obj` is stored under the next identifier
/// `id`, which no object ever held before.
pub open spec fn attached(before: Plane, obj: Object, after: Plane, id: Id) -> bool {
    &&& id == before.last_id() + 1
    &&& after.last_id() == id
    &&& after.objects() == before.objects().insert(id, obj)
    &&& after.collidables() == if obj.is_collidable {
        before.collidables().insert(id)
    } else {
        before.collidables()
    }
}

/// What `drop_object` does: the object under `id`, if any, is taken out of
/// the registry and the index and handed back as `r`.
pub open spec fn detached(before: Plane, id: Id, after: Plane, r: Option<Object>) -> bool {
    &&& r == if before.objects().contains_key(id) {
        Some(before.objects()[id])
    } else {
        None
    }
    &&& after.objects() == before.objects().remove(id)
    &&& after.collidables() == before.collidables().remove(id)
    &&& after.last_id() == before.last_id()
}

/// What `tick` does: every object is integrated once, and nothing is added,
/// removed or reindexed.
pub open spec fn ticked(before: Plane, after: Plane) -> bool {
    &&& after.objects().dom() == before.objects().dom()
    &&& forall|id: Id| #[trigger]
        after.objects().contains_key(id) ==> after.objects()[id] == before.objects()[id].stepped()
    &&& after.collidables() == before.collidables()
    &&& after.last_id() == before.last_id()
}

impl Plane {
    /// The registry: each identifier in use and its object.
    pub closed spec fn objects(&self) -> Map<Id, Object> {
        self.objects@
    }

    /// The identifiers of the collidable objects.
    pub closed spec fn collidables(&self) -> Set<Id> {
        self.collide_obj_ids@
    }

    /// The last identifier issued, or 0 if none was.
    pub closed spec fn last_id(&self) -> nat {
        self.id_counter as nat
    }

    /// The index holds exactly the collidable objects of the registry, and
    /// every identifier in use was issued.
    pub open spec fn wf(&self) -> bool {
        &&& forall|id: Id|
            #![trigger self.collidables().contains(id)]
            #![trigger self.objects().contains_key(id)]
            self.collidables().contains(id) <==> (self.objects().contains_key(id)
                && self.objects()[id].is_collidable)
        &&& forall|id: Id| #[trigger] self.objects().contains_key(id) ==> 1 <= id <= self.last_id()
    }

    /// An empty plane.
    pub fn new() -> (r: Self)
        ensures
            r.wf(),
            r.objects() == Map::<Id, Object>::empty(),
            r.collidables() == Set::<Id>::empty(),
            r.last_id() == 0,
    {
        Plane { objects: HashMap::new(), collide_obj_ids: HashSet::new(), id_counter: 0 }
    }

    /// Stores `obj` under a fresh identifier and returns that identifier.
    pub fn attach_object(&mut self, obj: Object) -> (id: Id)
        requires
            old(self).wf(),
            old(self).last_id() < u32::MAX,
        ensures
            final(self).wf(),
            attached(*old(self), obj, *final(self), id),
            !old(self).objects().contains_key(id),
    {
        proof {
            let next = (self.id_counter + 1) as Id;
            assert(!self.objects().contains_key(next));
            assert(!self.collidables().contains(next));
        }
        self.id_counter = self.id_counter + 1;
        let new_obj_id = self.id_counter;
        if obj.is_collidable {
            let fresh = self.collide_obj_ids.insert(new_obj_id);
            assert(fresh);
        }
        let previous = self.objects.insert(new_obj_id, obj);
        assert(previous is None);
        new_obj_id
    }

    /// Takes the object under `id` out of the plane and hands it back, or
    /// returns `None` when no object has that identifier.
    pub fn drop_object(&mut self, id: Id) -> (r: Option<Object>)
        requires
            old(self).wf(),
        ensures
            final(self).wf(),
            detached(*old(self), id, *final(self), r),
    {
        match self.objects.remove(&id) {
            Some(drop_obj) => {
                if drop_obj.is_collidable {
                    self.collide_obj_ids.remove(&id);
                } else {
                    assert(self.collide_obj_ids@ =~= self.collide_obj_ids@.remove(id));
                }
                Some(drop_obj)
            },
            None => {
                assert(self.collide_obj_ids@ =~= self.collide_obj_ids@.remove(id));
                assert(self.objects@ =~= self.objects@.remove(id));
                None
            },
        }
    }
    /// The identifiers of the collidable objects, each once.
    fn collidable_ids(&self) -> (ids: Vec<Id>)
        ensures
            ids@.no_duplicates(),
            ids@.to_set() == self.collidables(),
    {
        let ghost keys = IteratorSpec::remaining(&self.collide_obj_ids.iter()).unref();
        let mut ids: Vec<Id> = Vec::new();
        for id in it: self.collide_obj_ids.iter()
            invariant
                it.seq().unref() == keys,
                ids.len() == it.index(),
                forall|k: int| 0 <= k < it.index() ==> ids@[k] == keys[k],
        {
            ids.push(*id);
        }
        proof {
            assert(keys.to_set() == self.collidables());
            assert(keys.no_duplicates());
            assert(ids@ =~= keys);
        }
        ids
    }

    /// Every unordered pair of distinct collidable objects whose boxes meet,
    /// each reported once.
    pub fn detect_collisions(&self) -> (r: Vec<Collision>)
        requires
            self.wf(),
        ensures
            forall|i: int|
                0 <= i < r.len() ==> {
                    &&& r[i].0 != r[i].1
                    &&& self.collidables().contains(r[i].0)
                    &&& self.collidables().contains(r[i].1)
                    &&& boxes_meet(self.objects()[r[i].0], self.objects()[r[i].1])
                },
            forall|a: Id, b: Id|
                self.collidables().contains(a) && self.collidables().contains(b) && a != b
                    && boxes_meet(self.objects()[a], self.objects()[b]) ==> exists|i: int|
                    0 <= i < r.len() && same_pair(#[trigger] r[i], (a, b)),
            forall|i: int, j: int|
                0 <= i < r.len() && 0 <= j < r.len() && i != j ==> !same_pair(r[i], r[j]),
    {
        let ids = self.collidable_ids();
        let n = ids.len();
        let mut collision_list: Vec<Collision> = Vec::new();
        // Positions in `ids` of the two members of each reported pair.
        let ghost mut at: Seq<(int, int)> = Seq::empty();
        let mut i: usize = 0;
        while i < n
            invariant
                n == ids.len(),
                i <= n,
                self.wf(),
                ids@.no_duplicates(),
                ids@.to_set() == self.collidables(),
                at.len() == collision_list.len(),
                forall|k: int|
                    0 <= k < at.len() ==> {
                        &&& 0 <= (#[trigger] at[k]).0 < at[k].1 < n
                        &&& at[k].0 < i
                        &&& collision_list[k] == (ids[at[k].0], ids[at[k].1])
                        &&& boxes_meet(self.objects()[ids[at[k].0]], self.objects()[ids[at[k].1]])
                    },
                forall|k: int, l: int| 0 <= k < l < at.len() ==> at[k] != at[l],
                forall|p: int, q: int|
                    0 <= p < q < n && p < i && boxes_meet(self.objects()[ids[p]], self.objects()[ids[q]])
                        ==> exists|k: int| 0 <= k < at.len() && #[trigger] at[k] == (p, q),
            decreases n - i,
        {
            let id_1 = ids[i];
            proof {
                assert(ids@.to_set().contains(id_1));
            }
            let obj_1 = self.objects.get(&id_1).unwrap();
            let mut j: usize = i + 1;
            while j < n
                invariant
                    n == ids.len(),
                    i < n,
                    i < j <= n,
                    id_1 == ids[i as int],
                    *obj_1 == self.objects()[id_1],
                    self.wf(),
                    ids@.no_duplicates(),
                    ids@.to_set() == self.collidables(),
                    at.len() == collision_list.len(),
                    forall|k: int|
                        0 <= k < at.len() ==> {
                            &&& 0 <= (#[trigger] at[k]).0 < at[k].1 < n
                            &&& (at[k].0 < i || (at[k].0 == i && at[k].1 < j))
                            &&& collision_list[k] == (ids[at[k].0], ids[at[k].1])
                            &&& boxes_meet(self.objects()[ids[at[k].0]], self.objects()[ids[at[k].1]])
                        },
                    forall|k: int, l: int| 0 <= k < l < at.len() ==> at[k] != at[l],
                    forall|p: int, q: int|
                        0 <= p < q < n && (p < i || (p == i && q < j)) && boxes_meet(
                            self.objects()[ids[p]],
                            self.objects()[ids[q]],
                        ) ==> exists|k: int| 0 <= k < at.len() && #[trigger] at[k] == (p, q),
                decreases n - j,
            {
                let id_2 = ids[j];
                proof {
                    assert(ids@.to_set().contains(id_2));
                }
                let obj_2 = self.objects.get(&id_2).unwrap();
                if obj_1.detect_collision(obj_2) {
                    collision_list.push((id_1, id_2));
                    proof {
                        let ghost before = at;
                        at = at.push((i as int, j as int));
                        assert forall|p: int, q: int|
                            0 <= p < q < n && (p < i || (p == i && q <= j)) && boxes_meet(
                                self.objects()[ids[p]],
                                self.objects()[ids[q]],
                            ) implies exists|k: int| 0 <= k < at.len() && #[trigger] at[k] == (p, q) by {
                            if p == i && q == j {
                                assert(at[at.len() - 1] == (p, q));
                            } else {
                                let k = choose|k: int| 0 <= k < before.len() && #[trigger] before[k] == (p, q);
                                assert(at[k] == before[k]);
                            }
                        }
                    }
                }
                j = j + 1;
            }
            i = i + 1;
        }
        proof {
            assert forall|a: Id, b: Id|
                self.collidables().contains(a) && self.collidables().contains(b) && a != b
                    && boxes_meet(self.objects()[a], self.objects()[b]) implies exists|i: int|
                    0 <= i < collision_list.len() && same_pair(
                        #[trigger] collision_list[i],
                        (a, b),
                    ) by {
                assert(ids@.to_set().contains(a));
                assert(ids@.to_set().contains(b));
                assert(ids@.contains(a));
                assert(ids@.contains(b));
                let pa = choose|p: int| 0 <= p < ids.len() && ids@[p] == a;
                let pb = choose|p: int| 0 <= p < ids.len() && ids@[p] == b;
                assert(boxes_meet(self.objects()[b], self.objects()[a]));
                if pa < pb {
                    let k = choose|k: int| 0 <= k < at.len() && #[trigger] at[k] == (pa, pb);
                    assert(same_pair(collision_list[k], (a, b)));
                } else {
                    let k = choose|k: int| 0 <= k < at.len() && #[trigger] at[k] == (pb, pa);
                    assert(same_pair(collision_list[k], (a, b)));
                }
            }
            assert forall|i: int, j: int|
                0 <= i < collision_list.len() && 0 <= j < collision_list.len() && i != j implies !same_pair(
                collision_list[i],
                collision_list[j],
            ) by {
                let (x, y) = if i < j { (i, j) } else { (j, i) };
                assert(at[x] != at[y]);
                assert(ids@.no_duplicates());
            }
            assert forall|i: int| 0 <= i < collision_list.len() implies {
                &&& collision_list[i].0 != collision_list[i].1
                &&& self.collidables().contains(collision_list[i].0)
                &&& self.collidables().contains(collision_list[i].1)
                &&& boxes_meet(self.objects()[collision_list[i].0], self.objects()[collision_list[i].1])
            } by {
                let k = at[i];
                assert(ids@.to_set().contains(ids[k.0]));
                assert(ids@.to_set().contains(ids[k.1]));
            }
        }
        collision_list
    }
    /// The object stored under `id`, if any.
    pub fn get_object(&self, id: Id) -> (r: Option<Object>)
        ensures
            r == if self.objects().contains_key(id) {
                Some(self.objects()[id])
            } else {
                None
            },
    {
        match self.objects.get(&id) {
            Some(obj) => Some(*obj),
            None => None,
        }
    }

    /// Runs one step of the simulation: finds the collisions, hands each to
    /// the resolution step, then integrates every object.
    pub fn tick(&mut self)
        requires
            old(self).wf(),
        ensures
            final(self).wf(),
            ticked(*old(self), *final(self)),
    {
        let collisions = self.detect_collisions();
        let ghost start = *self;
        let mut k: usize = 0;
        while k < collisions.len()
            invariant
                *self == start,
                start.wf(),
            decreases collisions.len() - k,
        {
            self.execute_collisions();
            k = k + 1;
        }
        self.update_objects_physics();
    }

    /// Integrates every object of the registry over one tick.
    fn update_objects_physics(&mut self)
        requires
            old(self).wf(),
        ensures
            final(self).wf(),
            ticked(*old(self), *final(self)),
    {
        let ghost start = self.objects@;
        let ghost keys = IteratorSpec::remaining(&self.objects.keys()).unref();
        let mut ids: Vec<Id> = Vec::new();
        for id in it: self.objects.keys()
            invariant
                it.seq().unref() == keys,
                ids.len() == it.index(),
                forall|k: int| 0 <= k < it.index() ==> ids@[k] == keys[k],
        {
            ids.push(*id);
        }
        proof {
            assert(keys.to_set() == start.dom());
            assert(keys.no_duplicates());
            assert(ids@ =~= keys);
        }
        let mut i: usize = 0;
        while i < ids.len()
            invariant
                i <= ids.len(),
                ids@.no_duplicates(),
                ids@.to_set() == start.dom(),
                self.objects@.dom() == start.dom(),
                self.collide_obj_ids@ == old(self).collide_obj_ids@,
                self.id_counter == old(self).id_counter,
                start == old(self).objects@,
                forall|j: int| 0 <= j < i ==> self.objects@[#[trigger] ids@[j]] == start[ids@[j]].stepped(),
                forall|j: int| i <= j < ids.len() ==> self.objects@[#[trigger] ids@[j]] == start[ids@[j]],
            decreases ids.len() - i,
        {
            let id = ids[i];
            proof {
                assert(ids@.to_set().contains(id));
            }
            let mut obj = *self.objects.get(&id).unwrap();
            obj.update_physics();
            self.objects.insert(id, obj);
            proof {
                assert forall|j: int| 0 <= j < ids.len() && j != i implies ids@[j] != id by {
                }
            }
            i = i + 1;
        }
        proof {
            assert forall|id: Id| #[trigger] self.objects().contains_key(id) implies self.objects()[id]
                == start[id].stepped() by {
                assert(ids@.to_set().contains(id));
                assert(ids@.contains(id));
                let j = choose|j: int| 0 <= j < ids.len() && ids@[j] == id;
                assert(self.objects@[ids@[j]] == start[ids@[j]].stepped());
            }
            assert(self.objects@.dom() =~= start.dom());
        }
    }

    /// Resolves one collision. No rule is defined yet, so the plane is left
    /// as it is.
    fn execute_collisions(&mut self)
        ensures
            *final(self) == *old(self),
    {
    }
}

/// The identifiers handed out by a run of attachments count up from the last
/// one issued before the run.
proof fn lemma_attach_run_counts(planes: Seq<Plane>, objs: Seq<Object>, ids: Seq<Id>, k: int)
    requires
        planes.len() == objs.len() + 1,
        ids.len() == objs.len(),
        forall|j: int|
            0 <= j < objs.len() ==> attached(planes[j], objs[j], planes[j + 1], #[trigger] ids[j]),
        0 <= k < ids.len(),
    ensures
        ids[k] == planes[0].last_id() + k + 1,
    decreases k,
{
    assert(attached(planes[k], objs[k], planes[k + 1], ids[k]));
    if k > 0 {
        lemma_attach_run_counts(planes, objs, ids, k - 1);
        assert(attached(planes[k - 1], objs[k - 1], planes[k], ids[k - 1]));
    }
}

/// Attaching objects one after another hands out identifiers that differ
/// from one another and from every identifier issued before the first of
/// them, so none of them is in use in the plane they started from.
pub proof fn lemma_attach_run_fresh(planes: Seq<Plane>, objs: Seq<Object>, ids: Seq<Id>)
    requires
        planes.len() == objs.len() + 1,
        ids.len() == objs.len(),
        planes[0].wf(),
        forall|j: int|
            0 <= j < objs.len() ==> attached(planes[j], objs[j], planes[j + 1], #[trigger] ids[j]),
    ensures
        ids.no_duplicates(),
        forall|k: int| 0 <= k < ids.len() ==> #[trigger] ids[k] > planes[0].last_id(),
        forall|k: int| 0 <= k < ids.len() ==> !planes[0].objects().contains_key(#[trigger] ids[k]),
{
    assert forall|k: int| 0 <= k < ids.len() implies #[trigger] ids[k] == planes[0].last_id() + k + 1 by {
        lemma_attach_run_counts(planes, objs, ids, k);
    }
}

/// An identifier that was detached is never handed out again: the next
/// attachment issues a larger one.
pub proof fn lemma_detached_id_not_reissued(
    p0: Plane,
    o1: Object,
    p1: Plane,
    a: Id,
    p2: Plane,
    r: Option<Object>,
    o2: Object,
    p3: Plane,
    b: Id,
)
    requires
        attached(p0, o1, p1, a),
        detached(p1, a, p2, r),
        attached(p2, o2, p3, b),
    ensures
        a < b,
{
}

/// Detaching the same identifier twice hands the object back the first time
/// and nothing the second time.
pub proof fn lemma_detach_twice(
    p0: Plane,
    id: Id,
    p1: Plane,
    r1: Option<Object>,
    p2: Plane,
    r2: Option<Object>,
)
    requires
        p0.objects().contains_key(id),
        detached(p0, id, p1, r1),
        detached(p1, id, p2, r2),
    ensures
        r1 == Some(p0.objects()[id]),
        r2 is None,
{
}

/// Once detached, an object is out of the plane's reach: no later tick holds
/// or moves anything under its identifier.
pub proof fn lemma_detached_untouched_by_ticks(
    p0: Plane,
    id: Id,
    p1: Plane,
    r: Option<Object>,
    p2: Plane,
)
    requires
        detached(p0, id, p1, r),
        ticked(p1, p2),
    ensures
        !p2.objects().contains_key(id),
{
}

} // verus!
