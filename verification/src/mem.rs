//! The in-memory backend: it owns its state exclusively, serves every read
//! from it, and supports exact snapshot/revert through the snapshot manager.

use vstd::prelude::*;
use crate::alist::AList;
use crate::backend::Db;
use crate::snapshots::SnapshotManager;
use crate::state::{state_empty, StateMap, StateV};
use crate::types::{AccountInfo, Address, BackendError, SlotKey, Word};

verus! {

/// A self-contained backend holding every account, slot and block hash in
/// memory.
pub struct MemDb {
    state: StateMap,
    history: SnapshotManager,
    hashes: AList<u64, Word>,
}

impl MemDb {
    /// An empty backend: every address reads as the zero-value account and
    /// every slot as zero.
    pub fn new() -> (r: MemDb)
        ensures
            r.wf(),
            r.state() == state_empty(),
            r.known_hashes() == Map::<u64, Word>::empty(),
            r.snaps() == Seq::<(u64, StateV)>::empty(),
            r.next_snapshot_id() == 0,
            r.supports_snapshots(),
            r.self_contained(),
            !r.computes_state_root(),
    {
        MemDb { state: StateMap::new(), history: SnapshotManager::new(), hashes: AList::new() }
    }

    /// Records the hash of the historical block at height `number`; block
    /// data is supplied by an external collaborator.
    pub fn insert_block_hash(&mut self, number: u64, hash: Word)
        requires
            old(self).wf(),
        ensures
            final(self).wf(),
            final(self).known_hashes() == old(self).known_hashes().insert(number, hash),
            final(self).state() == old(self).state(),
            final(self).snaps() == old(self).snaps(),
            final(self).next_snapshot_id() == old(self).next_snapshot_id(),
    {
        self.hashes.set(number, hash);
    }

    /// A captured, read-only copy of the current state, for readers that
    /// must not share the live mutable instance.
    pub fn state_copy(&self) -> (r: StateMap)
        requires
            self.wf(),
        ensures
            r.wf(),
            r@ == self.state(),
    {
        self.state.dup()
    }

    /// Whether the current state equals the captured copy `s`, entry for
    /// entry.
    pub fn state_matches(&self, s: &StateMap) -> (b: bool)
        requires
            self.wf(),
            s.wf(),
        ensures
            b == (self.state() == s@),
    {
        self.state.state_eq(s)
    }
}

impl Db for MemDb {
    closed spec fn wf(&self) -> bool {
        self.state.wf() && self.history.wf() && self.hashes.wf()
    }

    closed spec fn state(&self) -> StateV {
        self.state@
    }

    closed spec fn known_hashes(&self) -> Map<u64, Word> {
        self.hashes@
    }

    closed spec fn snaps(&self) -> Seq<(u64, StateV)> {
        self.history.stack()
    }

    closed spec fn next_snapshot_id(&self) -> u64 {
        self.history.next()
    }

    closed spec fn supports_snapshots(&self) -> bool {
        true
    }

    closed spec fn self_contained(&self) -> bool {
        true
    }

    closed spec fn computes_state_root(&self) -> bool {
        false
    }

    proof fn snapshot_ids_invariant(&self) {
        self.history.lemma_ids_invariant();
    }

    fn basic(&mut self, address: Address) -> (r: Result<AccountInfo, BackendError>) {
        Ok(self.state.read_basic(address))
    }

    fn storage(&mut self, address: Address, slot: Word) -> (r: Result<Word, BackendError>) {
        Ok(self.state.read_storage(SlotKey { addr: address, slot }))
    }

    fn block_hash(&mut self, number: u64) -> (r: Result<Word, BackendError>) {
        match self.hashes.get(&number) {
            Some(h) => Ok(*h),
            None => Ok(Word::zero()),
        }
    }

    fn insert_account(&mut self, address: Address, account: AccountInfo) {
        self.state.put_account(address, account);
    }

    fn set_storage_at(&mut self, address: Address, slot: Word, val: Word) {
        self.state.put_storage(SlotKey { addr: address, slot }, val);
    }

    fn snapshot(&mut self) -> (id: u64) {
        let id = self.history.capture(&self.state);
        id
    }

    fn revert(&mut self, id: u64) -> (r: bool) {
        self.history.revert_onto(id, &mut self.state)
    }
}

} // verus!
