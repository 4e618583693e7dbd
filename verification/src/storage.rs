//! Sparse per-entity component storage.
//!
//! Entities are plain indices; a `Storage<T>` maps each entity to at most
//! one component of type `T`, densely, as a vector of optional slots.

use vstd::prelude::*;

verus! {

/// An identifier for one element of the scene graph.
#[derive(Clone, Copy, PartialEq, Eq, Structural, Debug)]
pub struct Entity {
    pub index: u32,
}

/// Per-entity storage of one component type.
pub struct Storage<T> {
    slots: Vec<Option<T>>,
}

impl<T> View for Storage<T> {
    type V = Seq<Option<T>>;

    closed spec fn view(&self) -> Seq<Option<T>> {
        self.slots@
    }
}

impl<T> Storage<T> {
    /// The component attached to `e`, if any.
    pub open spec fn spec_get(&self, e: Entity) -> Option<T> {
        if e.index < self@.len() {
            self@[e.index as int]
        } else {
            None
        }
    }

    /// An empty storage.
    pub fn new() -> (s: Self)
        ensures
            s@.len() == 0,
    {
        Storage { slots: Vec::new() }
    }

    /// The number of slots (one more than the highest entity index ever
    /// inserted).
    pub fn len(&self) -> (n: usize)
        ensures
            n == self@.len(),
    {
        self.slots.len()
    }

    /// Attaches `v` to `e`, replacing any component it had.
    pub fn insert(&mut self, e: Entity, v: T)
        ensures
            final(self).spec_get(e) == Some(v),
            forall|e2: Entity|
                e2 != e ==> final(self).spec_get(e2) == old(self).spec_get(e2),
            final(self)@.len() >= old(self)@.len(),
            e.index < old(self)@.len() ==> final(self)@ == old(self)@.update(
                e.index as int,
                Some(v),
            ),
    {
        while self.slots.len() <= e.index as usize
            invariant
                old(self)@.len() <= self@.len(),
                self@.len() <= old(self)@.len() || self@.len() <= e.index + 1,
                forall|j: int| 0 <= j < old(self)@.len() ==> self@[j] == old(self)@[j],
                forall|j: int| old(self)@.len() <= j < self@.len() ==> self@[j] is None,
            decreases e.index + 1 - self.slots.len(),
        {
            self.slots.push(None);
        }
        self.slots[e.index as usize] = Some(v);
        proof {
            assert forall|e2: Entity| e2 != e implies self.spec_get(e2)
                == old(self).spec_get(e2) by {
                assert(e2.index != e.index);
            }
            if e.index < old(self)@.len() {
                assert(self@ =~= old(self)@.update(e.index as int, Some(v)));
            }
        }
    }

    /// Reads the component attached to `e`, if any.
    pub fn get(&self, e: Entity) -> (r: Option<&T>)
        ensures
            match r {
                Some(v) => self.spec_get(e) == Some(*v),
                None => self.spec_get(e) is None,
            },
    {
        if (e.index as usize) < self.slots.len() {
            match &self.slots[e.index as usize] {
                Some(v) => Some(v),
                None => None,
            }
        } else {
            None
        }
    }

    /// Detaches and returns the component attached to `e`, if any.
    pub fn take(&mut self, e: Entity) -> (r: Option<T>)
        ensures
            r == old(self).spec_get(e),
            final(self).spec_get(e) is None,
            forall|e2: Entity|
                e2 != e ==> final(self).spec_get(e2) == old(self).spec_get(e2),
            final(self)@.len() == old(self)@.len(),
            e.index < old(self)@.len() ==> final(self)@ == old(self)@.update(
                e.index as int,
                None::<T>,
            ),
            e.index >= old(self)@.len() ==> final(self)@ == old(self)@,
    {
        if (e.index as usize) < self.slots.len() {
            let mut r: Option<T> = None;
            core::mem::swap(&mut r, &mut self.slots[e.index as usize]);
            r
        } else {
            None
        }
    }

    /// Detaches and returns the component in slot `i`, if any.
    pub fn take_at(&mut self, i: usize) -> (r: Option<T>)
        requires
            i < old(self)@.len(),
        ensures
            r == old(self)@[i as int],
            final(self)@ == old(self)@.update(i as int, None::<T>),
    {
        let mut r: Option<T> = None;
        core::mem::swap(&mut r, &mut self.slots[i]);
        r
    }

    /// Puts a component back into slot `i`.
    pub fn put_at(&mut self, i: usize, v: T)
        requires
            i < old(self)@.len(),
        ensures
            final(self)@ == old(self)@.update(i as int, Some(v)),
    {
        self.slots[i] = Some(v);
    }
}

} // verus!
