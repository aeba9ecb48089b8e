//! The lazy, finite, non-restartable ancestor walk.
//!
//! The store hands the walk's yield — each item an entry or a store failure —
//! to [`AncestorStream::new`] up front; the stream then meters how much of it
//! the pipeline actually pulls, so the cost guarantee (entries beyond the
//! limit are never fetched) is visible in `fetched_count`. A stream only
//! moves forward: there is no way to rewind or restart it.

use vstd::prelude::*;
use crate::entry::{HistoryEntry, StoreError};

verus! {

pub struct AncestorStream {
    /// The not-yet-yielded tail, reversed so the next item is last.
    rest: Vec<Result<HistoryEntry, StoreError>>,
    /// How many items have been yielded so far.
    fetched: usize,
    /// The whole walk, in yield order.
    init: Ghost<Seq<Result<HistoryEntry, StoreError>>>,
}

impl AncestorStream {
    /// The whole walk this stream yields, in order.
    pub closed spec fn entries(self) -> Seq<Result<HistoryEntry, StoreError>> {
        self.init@
    }

    /// How many items have been pulled from the store so far.
    pub closed spec fn fetched_count(self) -> int {
        self.fetched as int
    }

    pub closed spec fn wf(self) -> bool {
        &&& self.init@.len() <= usize::MAX
        &&& self.fetched + self.rest@.len() == self.init@.len()
        &&& forall|i: int|
            0 <= i < self.rest@.len() ==> self.rest@[i] == self.init@[self.init@.len() - 1 - i]
    }

    /// Wraps the walk's items, none of them fetched yet.
    pub fn new(entries: Vec<Result<HistoryEntry, StoreError>>) -> (s: Self)
        ensures
            s.wf(),
            s.entries() == entries@,
            s.fetched_count() == 0,
    {
        let ghost init = entries@;
        proof {
            vstd::std_specs::vec::axiom_spec_len(&entries);
        }
        let mut src = entries;
        let mut rest: Vec<Result<HistoryEntry, StoreError>> = Vec::new();
        while src.len() > 0
            invariant
                src@ == init.take(src@.len() as int),
                src@.len() + rest@.len() == init.len(),
                forall|i: int| 0 <= i < rest@.len() ==> rest@[i] == init[init.len() - 1 - i],
            decreases src.len(),
        {
            let item = src.pop().unwrap();
            proof {
                assert(src@ =~= init.take(src@.len() as int));
            }
            rest.push(item);
        }
        AncestorStream { rest, fetched: 0, init: Ghost(init) }
    }

    /// Pulls the next item of the walk, or reports that it is exhausted.
    pub fn next(&mut self) -> (r: Option<Result<HistoryEntry, StoreError>>)
        requires
            old(self).wf(),
        ensures
            final(self).wf(),
            final(self).entries() == old(self).entries(),
            old(self).fetched_count() < old(self).entries().len() ==> {
                &&& final(self).fetched_count() == old(self).fetched_count() + 1
                &&& r == Some(old(self).entries()[old(self).fetched_count()])
            },
            old(self).fetched_count() >= old(self).entries().len() ==> {
                &&& final(self).fetched_count() == old(self).fetched_count()
                &&& r is None
            },
    {
        match self.rest.pop() {
            Some(item) => {
                self.fetched = self.fetched + 1;
                Some(item)
            },
            None => None,
        }
    }

    /// How many items have been pulled from the store so far.
    pub fn fetched(&self) -> (n: usize)
        ensures
            n as int == self.fetched_count(),
    {
        self.fetched
    }
}

} // verus!
