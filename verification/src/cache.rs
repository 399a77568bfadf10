//! The caching adapter: wraps a read-only fallback source with a local
//! override store. Reads check the local store first and consult the
//! fallback only on a miss, memoizing the answer, so each key is fetched at
//! most once; writes land only in the local store and never reach the
//! fallback. The bare adapter holds no undo history: `snapshot` returns the
//! fixed sentinel id and `revert` always reports failure.

use vstd::prelude::*;
use crate::alist::AList;
use crate::backend::{hash_of, Db};
use crate::state::{
    apply_accounts, apply_storage, apply_update, basic_of, lemma_apply_accounts_step,
    lemma_apply_storage_step, storage_of, StateMap, StateUpdate, StateV,
};
use crate::types::{slot_key, AccountInfo, Address, BackendError, SlotKey, Word};

verus! {

/// A read-only provider of account, storage and block-hash data, consulted
/// on a local cache miss; typically a remote chain query endpoint. A fetch
/// either returns authoritative data or reports `Unavailable`; a failed or
/// cancelled fetch is never memoized. Implementations doing blocking
/// network reads must honor their caller's timeout.
pub trait FallbackSource {
    /// Fetches the account record stored for `address`.
    fn fetch_basic(&mut self, address: Address) -> Result<AccountInfo, BackendError>;

    /// Fetches the word stored in `slot` of `address`.
    fn fetch_storage(&mut self, address: Address, slot: Word) -> Result<Word, BackendError>;

    /// Fetches the hash of the block at height `number`.
    fn fetch_block_hash(&mut self, number: u64) -> Result<Word, BackendError>;
}

/// A fallback source backed by a captured state: every fetch answers from
/// the copy, so it can seed an adapter from a known state.
pub struct FixedSource {
    state: StateMap,
    hashes: AList<u64, Word>,
}

impl FixedSource {
    #[verifier::type_invariant]
    closed spec fn inv(&self) -> bool {
        self.state.wf() && self.hashes.wf()
    }

    /// The captured state that every fetch answers from.
    pub closed spec fn captured(&self) -> StateV {
        self.state@
    }

    /// The captured block hashes.
    pub closed spec fn captured_hashes(&self) -> Map<u64, Word> {
        self.hashes@
    }

    /// A source answering from the captured state `s`.
    pub fn new(s: StateMap, hashes: AList<u64, Word>) -> (r: FixedSource)
        requires
            s.wf(),
            hashes.wf(),
        ensures
            r.captured() == s@,
            r.captured_hashes() == hashes@,
    {
        FixedSource { state: s, hashes }
    }
}

impl FallbackSource for FixedSource {
    fn fetch_basic(&mut self, address: Address) -> (r: Result<AccountInfo, BackendError>)
        ensures
            *final(self) == *old(self),
            r matches Ok(info) ==> info@ == basic_of(old(self).captured(), address),
            r is Ok,
    {
        proof {
            use_type_invariant(&*self);
        }
        Ok(self.state.read_basic(address))
    }

    fn fetch_storage(&mut self, address: Address, slot: Word) -> (r: Result<Word, BackendError>)
        ensures
            *final(self) == *old(self),
            r matches Ok(v) ==> v == storage_of(old(self).captured(), slot_key(address, slot)),
            r is Ok,
    {
        proof {
            use_type_invariant(&*self);
        }
        Ok(self.state.read_storage(SlotKey { addr: address, slot }))
    }

    fn fetch_block_hash(&mut self, number: u64) -> (r: Result<Word, BackendError>)
        ensures
            *final(self) == *old(self),
            r matches Ok(h) ==> h == hash_of(old(self).captured_hashes(), number),
            r is Ok,
    {
        proof {
            use_type_invariant(&*self);
        }
        match self.hashes.get(&number) {
            Some(h) => Ok(*h),
            None => Ok(Word::zero()),
        }
    }
}

/// A backend that forks off a fallback source: local overrides first, the
/// fallback once per missing key, no snapshot support.
pub struct CachingAdapter<F: FallbackSource> {
    fallback: F,
    local: StateMap,
    local_hashes: AList<u64, Word>,
}

impl<F: FallbackSource> CachingAdapter<F> {
    /// The wrapped fallback source.
    pub closed spec fn fallback_view(&self) -> F {
        self.fallback
    }

    /// An adapter over `fallback` with no local overrides yet.
    pub fn new(fallback: F) -> (r: CachingAdapter<F>)
        ensures
            r.wf(),
            r.state() == crate::state::state_empty(),
            r.known_hashes() == Map::<u64, Word>::empty(),
            r.snaps() == Seq::<(u64, StateV)>::empty(),
            r.next_snapshot_id() == 0,
            !r.supports_snapshots(),
            !r.self_contained(),
            !r.computes_state_root(),
            r.fallback_view() == fallback,
    {
        CachingAdapter { fallback, local: StateMap::new(), local_hashes: AList::new() }
    }

    /// A read-only borrow of the fallback source.
    pub fn fallback_ref(&self) -> (r: &F)
        ensures
            *r == self.fallback_view(),
    {
        &self.fallback
    }

    /// Hands the fallback source back, dropping the local overrides.
    pub fn into_fallback(self) -> (r: F)
        ensures
            r == self.fallback_view(),
    {
        self.fallback
    }
}

impl<F: FallbackSource> Db for CachingAdapter<F> {
    closed spec fn wf(&self) -> bool {
        self.local.wf() && self.local_hashes.wf()
    }

    closed spec fn state(&self) -> StateV {
        self.local@
    }

    closed spec fn known_hashes(&self) -> Map<u64, Word> {
        self.local_hashes@
    }

    closed spec fn snaps(&self) -> Seq<(u64, StateV)> {
        Seq::empty()
    }

    closed spec fn next_snapshot_id(&self) -> u64 {
        0
    }

    closed spec fn supports_snapshots(&self) -> bool {
        false
    }

    closed spec fn self_contained(&self) -> bool {
        false
    }

    closed spec fn computes_state_root(&self) -> bool {
        false
    }

    proof fn snapshot_ids_invariant(&self) {
    }

    fn basic(&mut self, address: Address) -> (r: Result<AccountInfo, BackendError>) {
        let cached = match self.local.get_account(address) {
            Some(info) => Some(info.dup()),
            None => None,
        };
        match cached {
            Some(info) => Ok(info),
            None => {
                match self.fallback.fetch_basic(address) {
                    Ok(fetched) => {
                        let out = fetched.dup();
                        self.local.put_account(address, fetched);
                        Ok(out)
                    }
                    Err(e) => Err(e),
                }
            }
        }
    }

    fn storage(&mut self, address: Address, slot: Word) -> (r: Result<Word, BackendError>) {
        let key = SlotKey { addr: address, slot };
        let cached = match self.local.get_storage(key) {
            Some(w) => Some(*w),
            None => None,
        };
        match cached {
            Some(w) => Ok(w),
            None => {
                match self.fallback.fetch_storage(address, slot) {
                    Ok(fetched) => {
                        self.local.put_storage(key, fetched);
                        Ok(fetched)
                    }
                    Err(e) => Err(e),
                }
            }
        }
    }

    fn block_hash(&mut self, number: u64) -> (r: Result<Word, BackendError>) {
        let cached = match self.local_hashes.get(&number) {
            Some(h) => Some(*h),
            None => None,
        };
        match cached {
            Some(h) => Ok(h),
            None => {
                match self.fallback.fetch_block_hash(number) {
                    Ok(fetched) => {
                        self.local_hashes.set(number, fetched);
                        Ok(fetched)
                    }
                    Err(e) => Err(e),
                }
            }
        }
    }

    fn insert_account(&mut self, address: Address, account: AccountInfo)
        ensures
            final(self).fallback_view() == old(self).fallback_view(),
    {
        self.local.put_account(address, account);
    }

    fn set_storage_at(&mut self, address: Address, slot: Word, val: Word)
        ensures
            final(self).fallback_view() == old(self).fallback_view(),
    {
        self.local.put_storage(SlotKey { addr: address, slot }, val);
    }

    fn commit(&mut self, update: StateUpdate)
        ensures
            final(self).fallback_view() == old(self).fallback_view(),
    {
        let ghost pre = *self;
        let mut i: usize = 0;
        while i < update.accounts.len()
            invariant
                self.wf(),
                i <= update.accounts.len(),
                self.fallback_view() == pre.fallback_view(),
                self.known_hashes() == pre.known_hashes(),
                self.state().accounts == apply_accounts(
                    pre.state().accounts,
                    update.accounts@.take(i as int),
                ),
                self.state().storage == pre.state().storage,
            decreases update.accounts.len() - i,
        {
            let p = &update.accounts[i];
            let account = p.1.dup();
            self.local.put_account(p.0, account);
            proof {
                lemma_apply_accounts_step(pre.state().accounts, update.accounts@, i as int);
            }
            i = i + 1;
        }
        proof {
            assert(update.accounts@.take(update.accounts@.len() as int) =~= update.accounts@);
        }
        let mut j: usize = 0;
        while j < update.storage.len()
            invariant
                self.wf(),
                j <= update.storage.len(),
                self.fallback_view() == pre.fallback_view(),
                self.known_hashes() == pre.known_hashes(),
                self.state().accounts == apply_accounts(pre.state().accounts, update.accounts@),
                self.state().storage == apply_storage(
                    pre.state().storage,
                    update.storage@.take(j as int),
                ),
            decreases update.storage.len() - j,
        {
            let q = &update.storage[j];
            self.local.put_storage(q.0, q.1);
            proof {
                lemma_apply_storage_step(pre.state().storage, update.storage@, j as int);
            }
            j = j + 1;
        }
        proof {
            assert(update.storage@.take(update.storage@.len() as int) =~= update.storage@);
            assert(self.state() == apply_update(pre.state(), update));
        }
    }

    fn snapshot(&mut self) -> (id: u64) {
        0
    }

    fn revert(&mut self, id: u64) -> (r: bool) {
        false
    }
}

} // verus!
