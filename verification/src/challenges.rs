//! The challenge map: one slot per declared challenge index. Each slot is
//! filled exactly once, during the phase that owns it, and the scheduler
//! proves the map complete before handing the ordered sequence to the
//! backend.

use crate::scalar::Scalar;
use vstd::prelude::*;

verus! {

/// A mapping from challenge index to derived scalar. A slot holds `None`
/// until its challenge has been squeezed from the transcript.
pub struct ChallengeMap {
    /// One slot per challenge index declared by the key.
    pub slots: Vec<Option<Scalar>>,
}

impl ChallengeMap {
    /// All challenge indices have been derived.
    pub open spec fn complete(self) -> bool {
        forall|i: int| 0 <= i < self.slots@.len() ==> self.slots@[i] is Some
    }

    /// Builds an empty map for `n` challenge indices.
    pub fn new(n: usize) -> (r: ChallengeMap)
        ensures
            r.slots@.len() == n,
            forall|i: int| 0 <= i < n ==> r.slots@[i] is None,
    {
        let mut slots: Vec<Option<Scalar>> = Vec::new();
        let mut i: usize = 0;
        while i < n
            invariant
                i <= n,
                slots@.len() == i,
                forall|j: int| 0 <= j < i ==> slots@[j] is None,
            decreases n - i,
        {
            slots.push(None);
            i = i + 1;
        }
        ChallengeMap { slots }
    }

    /// Records the derived scalar for one challenge index. The index must
    /// not have been derived before: the scheduler proves this from the
    /// strictly ascending phase order, so the at-most-once invariant is a
    /// verified fact rather than a runtime assertion.
    pub fn insert(&mut self, index: usize, value: Scalar)
        requires
            index < old(self).slots@.len(),
            old(self).slots@[index as int] is None,
        ensures
            final(self).slots@ == old(self).slots@.update(index as int, Some(value)),
    {
        self.slots.set(index, Some(value));
    }

    /// Looks a challenge up; `None` marks a challenge not yet derived (or an
    /// index the key does not declare), which circuits must tolerate.
    pub fn get(&self, index: usize) -> (r: Option<Scalar>)
        ensures
            index < self.slots@.len() ==> r == self.slots@[index as int],
            index >= self.slots@.len() ==> r is None,
    {
        if index < self.slots.len() {
            self.slots[index]
        } else {
            None
        }
    }

    /// The number of declared challenge indices.
    pub fn capacity(&self) -> (r: usize)
        ensures
            r == self.slots@.len(),
    {
        self.slots.len()
    }

    /// Copies the map, for seeding one phase's witness buffers.
    pub fn snapshot(&self) -> (r: ChallengeMap)
        ensures
            r.slots@ == self.slots@,
    {
        let mut slots: Vec<Option<Scalar>> = Vec::new();
        let mut i: usize = 0;
        while i < self.slots.len()
            invariant
                i <= self.slots@.len(),
                slots@ == self.slots@.take(i as int),
            decreases self.slots@.len() - i,
        {
            slots.push(self.slots[i]);
            proof {
                assert(slots@ =~= self.slots@.take(i + 1));
            }
            i = i + 1;
        }
        proof {
            assert(self.slots@.take(self.slots@.len() as int) =~= self.slots@);
        }
        ChallengeMap { slots }
    }

    /// Reorders the completed map into the index-ordered sequence handed to
    /// the backend: entry `i` is exactly the scalar derived for index `i`.
    pub fn into_ordered(&self) -> (r: Vec<Scalar>)
        requires
            self.complete(),
        ensures
            r@.len() == self.slots@.len(),
            forall|i: int| 0 <= i < r@.len() ==> Some(r@[i]) == self.slots@[i],
    {
        let mut r: Vec<Scalar> = Vec::new();
        let mut i: usize = 0;
        while i < self.slots.len()
            invariant
                i <= self.slots@.len(),
                self.complete(),
                r@.len() == i,
                forall|j: int| 0 <= j < i ==> Some(r@[j]) == self.slots@[j],
            decreases self.slots@.len() - i,
        {
            let v = self.slots[i].unwrap();
            r.push(v);
            i = i + 1;
        }
        r
    }
}

} // verus!
