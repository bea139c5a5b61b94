//! The releases that wait for their request to come first in the queue.

use vstd::prelude::*;
use std::collections::HashMap;
use crate::proto::ResourceRelease;

verus! {

broadcast use vstd::std_specs::hash::group_hash_axioms;

/// The pending releases by shorthand, each with a flag that says whether the
/// whole cluster has acknowledged its request.
#[derive(Debug)]
pub struct PendingTable {
    pub entries: HashMap<u64, (ResourceRelease, bool)>,
}

/// The table `entries` with the entry under `key`, if there is one, flagged
/// as acknowledged.
pub open spec fn acknowledged(entries: Map<u64, (ResourceRelease, bool)>, key: u64) -> Map<
    u64,
    (ResourceRelease, bool),
> {
    if entries.contains_key(key) {
        entries.insert(key, (entries[key].0, true))
    } else {
        entries
    }
}

impl View for PendingTable {
    type V = Map<u64, (ResourceRelease, bool)>;

    open spec fn view(&self) -> Map<u64, (ResourceRelease, bool)> {
        self.entries@
    }
}

impl PendingTable {
    /// An empty table.
    pub fn new() -> (t: PendingTable)
        ensures
            t@ == Map::<u64, (ResourceRelease, bool)>::empty(),
    {
        PendingTable { entries: HashMap::new() }
    }

    /// The number of pending releases.
    pub fn len(&self) -> (n: usize)
        ensures
            n == self@.len(),
    {
        self.entries.len()
    }

    /// Stores `release` under `key`, not yet acknowledged. An entry that was
    /// there under `key` is replaced.
    pub fn insert(&mut self, key: u64, release: ResourceRelease)
        ensures
            final(self)@ == old(self)@.insert(key, (release, false)),
    {
        self.entries.insert(key, (release, false));
    }

    /// Whether there is an entry under `key` and it is acknowledged.
    pub fn is_acknowledged(&self, key: u64) -> (b: bool)
        ensures
            b == (self@.contains_key(key) && self@[key].1),
    {
        match self.entries.get(&key) {
            Some(entry) => entry.1,
            None => false,
        }
    }

    /// Flags the entry under `key` as acknowledged; without such an entry
    /// nothing changes.
    pub fn acknowledge(&mut self, key: u64)
        ensures
            final(self)@ == acknowledged(old(self)@, key),
    {
        match self.entries.remove(&key) {
            Some(entry) => {
                self.entries.insert(key, (entry.0, true));
                assert(self@ =~= acknowledged(old(self)@, key));
            },
            None => {
                assert(self@ =~= old(self)@);
            },
        }
    }

    /// Takes the release under `key` out of the table.
    pub fn take(&mut self, key: u64) -> (release: Option<ResourceRelease>)
        ensures
            final(self)@ == old(self)@.remove(key),
            old(self)@.contains_key(key) ==> release == Some(old(self)@[key].0),
            !old(self)@.contains_key(key) ==> release is None,
    {
        match self.entries.remove(&key) {
            Some(entry) => Some(entry.0),
            None => None,
        }
    }
}

} // verus!
