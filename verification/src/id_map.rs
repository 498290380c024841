//! A map that hands out the keys itself.
//!
//! `IdMap` stores values under ids it chooses. `add` takes the smallest hole
//! when there is one, else the next id never handed out before. The holes are
//! kept in an AVL tree set. `remove` takes the removed id out of the holes and
//! never puts one in, so a map built with these operations has no hole: its
//! ids count up from 0 and none is handed out twice.
use avl::AvlTreeSet;
use std::collections::hash_map::Entry;
use std::collections::HashMap;
use vstd::prelude::*;

verus! {

broadcast use vstd::std_specs::hash::group_hash_axioms;

/// The AVL tree set of the `avl` crate, seen only through the functions
/// below.
#[verifier::external_type_specification]
#[verifier::external_body]
#[verifier::reject_recursive_types(T)]
pub struct ExAvlTreeSet<T>(avl::AvlTreeSet<T>);

/// The values that an AVL tree set of ids holds.
pub uninterp spec fn tree_set_elements(s: AvlTreeSet<usize>) -> Set<usize>;

/// `avl::AvlTreeSet::new`: the new set holds nothing.
#[verifier::external_body]
fn tree_set_new() -> (s: AvlTreeSet<usize>)
    ensures
        tree_set_elements(s) == Set::<usize>::empty(),
{
    AvlTreeSet::new()
}

/// `avl::AvlTreeSet::is_empty`: true exactly when the set holds nothing.
#[verifier::external_body]
fn tree_set_is_empty(s: &AvlTreeSet<usize>) -> (b: bool)
    ensures
        b == (tree_set_elements(*s) == Set::<usize>::empty()),
{
    s.is_empty()
}

/// The first value of `avl::AvlTreeSet::iter` (which visits the values in
/// sorted order): the smallest value of the set, or `None` when it is empty.
#[verifier::external_body]
fn tree_set_first(s: &AvlTreeSet<usize>) -> (r: Option<usize>)
    ensures
        r is None <==> tree_set_elements(*s) == Set::<usize>::empty(),
        r matches Some(x) ==> tree_set_elements(*s).contains(x) && forall|y: usize|
            #[trigger] tree_set_elements(*s).contains(y) ==> x <= y,
{
    s.iter().next().copied()
}

/// `avl::AvlTreeSet::remove`: takes `x` out of the set and tells whether it
/// was there.
#[verifier::external_body]
fn tree_set_remove(s: &mut AvlTreeSet<usize>, x: usize) -> (was_there: bool)
    ensures
        tree_set_elements(*final(s)) == tree_set_elements(*old(s)).remove(x),
        was_there == tree_set_elements(*old(s)).contains(x),
{
    s.remove(&x)
}

/// `Clone` of `avl::AvlTreeSet` (derived there): a set with the same values.
#[verifier::external_body]
fn tree_set_clone(s: &AvlTreeSet<usize>) -> (c: AvlTreeSet<usize>)
    ensures
        tree_set_elements(c) == tree_set_elements(*s),
{
    s.clone()
}

/// Values of type `V` stored under ids that the map assigns.
#[verifier::reject_recursive_types(V)]
pub struct IdMap<V> {
    v: HashMap<usize, V>,
    holes: AvlTreeSet<usize>,
    len: usize,
}

impl<V> View for IdMap<V> {
    type V = Map<usize, V>;

    /// The stored values, by id.
    closed spec fn view(&self) -> Map<usize, V> {
        self.v@
    }
}

impl<V> IdMap<V> {
    /// The id that the map hands out next when it has no hole: one more than
    /// the last id it ever handed out that way.
    pub closed spec fn next_id(&self) -> usize {
        self.len
    }

    /// Ids below `next_id` that the map would hand out again before a new one.
    pub closed spec fn holes(&self) -> Set<usize> {
        tree_set_elements(self.holes)
    }

    /// Every stored id and every hole lies below `next_id`, and no hole is in
    /// use.
    pub closed spec fn wf(&self) -> bool {
        &&& forall|k: usize| #[trigger] self.v@.contains_key(k) ==> k < self.len
        &&& forall|h: usize| #[trigger] tree_set_elements(self.holes).contains(h)
            ==> h < self.len && !self.v@.contains_key(h)
    }

    /// The id that `add` picks: the smallest hole if there is one, else
    /// `next_id`.
    pub open spec fn id_for_next_add(&self) -> usize {
        if self.holes() == Set::<usize>::empty() {
            self.next_id()
        } else {
            choose|h: usize| #[trigger]
                self.holes().contains(h) && forall|g: usize| #[trigger]
                    self.holes().contains(g) ==> h <= g
        }
    }

    /// An empty map that will hand out 0 first.
    pub fn new() -> (m: Self)
        ensures
            m.wf(),
            m@ == Map::<usize, V>::empty(),
            m.next_id() == 0,
            m.holes() == Set::<usize>::empty(),
    {
        Self { v: HashMap::new(), holes: tree_set_new(), len: 0 }
    }

    /// Stores `val` under a fresh id and returns that id: the smallest hole,
    /// or `next_id` when there is no hole.
    pub fn add(&mut self, val: V) -> (id: usize)
        requires
            old(self).wf(),
            old(self).holes() == Set::<usize>::empty() ==> old(self).next_id() < usize::MAX,
        ensures
            final(self).wf(),
            id == old(self).id_for_next_add(),
            !old(self)@.contains_key(id),
            final(self)@ == old(self)@.insert(id, val),
            old(self).holes() == Set::<usize>::empty() ==> {
                &&& id == old(self).next_id()
                &&& final(self).next_id() == old(self).next_id() + 1
                &&& final(self).holes() == Set::<usize>::empty()
            },
            old(self).holes() != Set::<usize>::empty() ==> {
                &&& old(self).holes().contains(id)
                &&& forall|h: usize| #[trigger] old(self).holes().contains(h) ==> id <= h
                &&& final(self).next_id() == old(self).next_id()
                &&& final(self).holes() == old(self).holes().remove(id)
            },
    {
        if tree_set_is_empty(&self.holes) {
            self.v.insert(self.len, val);
            let r = self.len;
            self.len += 1;
            r
        } else {
            let r = tree_set_first(&self.holes).unwrap();
            proof {
                let h = self.id_for_next_add();
                assert(self.holes().contains(r));
                assert(self.holes().contains(h) && forall|g: usize| #[trigger]
                    self.holes().contains(g) ==> h <= g);
                assert(h <= r && r <= h);
            }
            tree_set_remove(&mut self.holes, r);
            self.v.insert(r, val);
            r
        }
    }

    /// Takes the value stored under `id` out of the map, if there is one.
    /// The ids handed out later are not affected.
    pub fn remove(&mut self, id: usize) -> (r: Option<V>)
        requires
            old(self).wf(),
        ensures
            final(self).wf(),
            final(self)@ == old(self)@.remove(id),
            r == (if old(self)@.contains_key(id) {
                Some(old(self)@[id])
            } else {
                None::<V>
            }),
            final(self).next_id() == old(self).next_id(),
            final(self).holes() == old(self).holes(),
    {
        let r = self.v.remove(&id);
        if r.is_some() {
            tree_set_remove(&mut self.holes, id);
            proof {
                assert(self.holes() =~= old(self).holes());
            }
        }
        r
    }

    /// Whether a value is stored under `id`.
    pub fn contains(&self, id: usize) -> (b: bool)
        ensures
            b == self@.contains_key(id),
    {
        self.v.contains_key(&id)
    }

    /// Whether `add` can hand out one more id: there is a hole, or `next_id`
    /// can still be counted up.
    pub fn can_add(&self) -> (b: bool)
        ensures
            b == (self.holes() != Set::<usize>::empty() || self.next_id() < usize::MAX),
    {
        !tree_set_is_empty(&self.holes) || self.len < usize::MAX
    }

    /// The value stored under `id`.
    pub fn index(&self, id: usize) -> (r: &V)
        requires
            self@.contains_key(id),
        ensures
            *r == self@[id],
    {
        self.v.get(&id).unwrap()
    }

    /// The value stored under `id`, for changing in place. Whatever is
    /// written through the reference is what the map holds under `id`
    /// afterwards; nothing else changes.
    pub fn index_mut(&mut self, id: usize) -> (r: &mut V)
        requires
            old(self).wf(),
            old(self)@.contains_key(id),
        ensures
            *r == old(self)@[id],
            final(self).wf(),
            final(self)@ == old(self)@.insert(id, *final(r)),
            final(self).next_id() == old(self).next_id(),
            final(self).holes() == old(self).holes(),
    {
        match self.v.entry(id) {
            Entry::Occupied(o) => o.into_mut(),
            Entry::Vacant(_) => vstd::pervasive::unreached(),
        }
    }
}

impl<V: Clone> Clone for IdMap<V> {
    /// A copy that stores clones of the values under the same ids and hands
    /// out the same ids next.
    fn clone(&self) -> (c: Self)
        ensures
            c@ == self@,
            c.next_id() == self.next_id(),
            c.holes() == self.holes(),
            self.wf() ==> c.wf(),
    {
        IdMap { v: self.v.clone(), holes: tree_set_clone(&self.holes), len: self.len }
    }
}

/// Every id in use, and every hole, lies below `next_id`; no hole is in use.
pub proof fn lemma_ids_below_next<V>(m: &IdMap<V>)
    requires
        m.wf(),
    ensures
        forall|k: usize| #[trigger] m@.contains_key(k) ==> k < m.next_id(),
        forall|h: usize| #[trigger]
            m.holes().contains(h) ==> h < m.next_id() && !m@.contains_key(h),
{
}

/// With no hole, `add` hands out `next_id`, which no stored value uses. Since
/// `new` makes a map without holes and no operation adds one, the ids handed
/// out by a map count up from 0 and are never handed out twice.
pub proof fn lemma_no_holes_fresh_id<V>(m: &IdMap<V>)
    requires
        m.wf(),
        m.holes() == Set::<usize>::empty(),
    ensures
        m.id_for_next_add() == m.next_id(),
        !m@.contains_key(m.next_id()),
{
}

/// A value stored under a fresh id reads back as itself (so `remove` returns
/// it), removing it gives back the map as it was before, and a second
/// removal finds nothing (so it returns `None`).
pub proof fn lemma_remove_undoes_add<V>(before: Map<usize, V>, id: usize, val: V)
    requires
        !before.contains_key(id),
    ensures
        before.insert(id, val)[id] == val,
        before.insert(id, val).remove(id) == before,
        !before.insert(id, val).remove(id).contains_key(id),
{
    assert(before.insert(id, val).remove(id) =~= before);
}

} // verus!
