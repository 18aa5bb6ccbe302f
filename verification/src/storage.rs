//! The durable storage substrate: one flat heap-backed memory space carved
//! into two logical regions, one holding the monotonic identifier counter and
//! one holding the ordered record index. Both are kept in
//! `ic_stable_structures` containers and are reached only through the trusted
//! wrappers below; everything above them is verified against these contracts.

use vstd::prelude::*;

use ic_stable_structures::memory_manager::{MemoryId, MemoryManager, VirtualMemory};
use ic_stable_structures::{Cell, DefaultMemoryImpl, StableBTreeMap};

verus! {

/// A single persisted 64-bit counter, stored in logical region 0.
#[verifier::external_body]
pub struct StableCounter {
    cell: Cell<u64, VirtualMemory<DefaultMemoryImpl>>,
}

/// The value currently persisted in the counter cell.
pub uninterp spec fn counter_value(c: StableCounter) -> u64;

/// An ordered map from identifier to encoded record, stored in logical
/// region 1.
#[verifier::external_body]
pub struct StableIndex {
    map: StableBTreeMap<u64, Vec<u8>, VirtualMemory<DefaultMemoryImpl>>,
}

/// The entries currently persisted in the index.
pub uninterp spec fn index_map(ix: StableIndex) -> Map<u64, Seq<u8>>;

/// The two regions of one freshly initialized storage space.
pub struct Storage {
    pub counter: StableCounter,
    pub index: StableIndex,
}

/// Both regions are in their first-run state: the counter reads 0 and the
/// index holds no entries.
pub open spec fn storage_fresh(s: Storage) -> bool {
    &&& counter_value(s.counter) == 0
    &&& index_map(s.index) == Map::<u64, Seq<u8>>::empty()
}

/// Relies on `ic_stable_structures`: `MemoryManager::init` carves disjoint,
/// lazily grown regions out of one memory space; `Cell::init` on an empty
/// region stores and returns the given default; `StableBTreeMap::init` on an
/// empty region creates an empty map. The backing space is a fresh in-process
/// heap buffer, so both regions start empty, and after this call the two
/// returned handles are the only access to their regions.
#[verifier::external_body]
pub(crate) fn storage_init() -> (r: Storage)
    ensures
        storage_fresh(r),
{
    let mgr = MemoryManager::init(DefaultMemoryImpl::default());
    let cell = Cell::init(mgr.get(MemoryId::new(0)), 0u64);
    let map = StableBTreeMap::init(mgr.get(MemoryId::new(1)));
    Storage { counter: StableCounter { cell }, index: StableIndex { map } }
}

impl StableCounter {
    /// Relies on `Cell::get`: returns the value held in the cell.
    #[verifier::external_body]
    pub(crate) fn value(&self) -> (r: u64)
        ensures
            r == counter_value(*self),
    {
        *self.cell.get()
    }

    /// Relies on `Cell::set`: persists the new value before updating the
    /// in-memory copy. Exhaustion of the backing space would be fatal to the
    /// whole store and aborts inside the call; a heap-backed region does not
    /// exhaust.
    #[verifier::external_body]
    pub(crate) fn set(&mut self, v: u64)
        ensures
            counter_value(*final(self)) == v,
    {
        let _prev = self.cell.set(v);
    }
}

impl StableIndex {
    /// Relies on `StableBTreeMap::get`: returns the value stored under the
    /// key, if any.
    #[verifier::external_body]
    pub(crate) fn get(&self, id: u64) -> (r: Option<Vec<u8>>)
        ensures
            match r {
                Some(v) => index_map(*self).contains_key(id) && v@ == index_map(*self)[id],
                None => !index_map(*self).contains_key(id),
            },
    {
        self.map.get(&id)
    }

    /// Relies on `StableBTreeMap::insert`: stores the value under the key,
    /// returning the previous value if the key was present (overwrite
    /// semantics). Exhaustion of the backing space aborts inside the call; a
    /// heap-backed region does not exhaust.
    #[verifier::external_body]
    pub(crate) fn insert(&mut self, id: u64, bytes: Vec<u8>) -> (r: Option<Vec<u8>>)
        ensures
            index_map(*final(self)) == index_map(*old(self)).insert(id, bytes@),
            match r {
                Some(v) => index_map(*old(self)).contains_key(id) && v@ == index_map(
                    *old(self),
                )[id],
                None => !index_map(*old(self)).contains_key(id),
            },
    {
        self.map.insert(id, bytes)
    }

    /// Relies on `StableBTreeMap::remove`: removes the key, returning the
    /// value that was stored under it, if any.
    #[verifier::external_body]
    pub(crate) fn remove(&mut self, id: u64) -> (r: Option<Vec<u8>>)
        ensures
            index_map(*final(self)) == index_map(*old(self)).remove(id),
            match r {
                Some(v) => index_map(*old(self)).contains_key(id) && v@ == index_map(
                    *old(self),
                )[id],
                None => !index_map(*old(self)).contains_key(id),
            },
    {
        self.map.remove(&id)
    }
}

} // verus!
