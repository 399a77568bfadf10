//! The state-backend contract: one capability bundle for reading, writing,
//! batch-committing, and snapshotting backend state, together with the
//! read-modify-write mutators that every backend shares.

use vstd::prelude::*;
use crate::alist::Value;
use crate::state::{
    apply_accounts, apply_storage, apply_update, basic_of, code_of, lemma_apply_accounts_step,
    lemma_apply_storage_step, StateUpdate, StateV,
};
use crate::types::{
    slot_key, with_balance, with_code, with_nonce, AccountInfo, AccountV, Address, BackendError,
    Word,
};

verus! {

/// What a read of the block hash for height `n` observes in the mapping `m`:
/// the known hash, or zero when none was recorded.
pub open spec fn hash_of(m: Map<u64, Word>, n: u64) -> Word {
    if m.contains_key(n) {
        m[n]
    } else {
        crate::types::word_zero()
    }
}

/// Whether the snapshot stack `s` holds an entry tagged `id`.
pub open spec fn has_snapshot(s: Seq<(u64, StateV)>, id: u64) -> bool {
    exists|i: int| 0 <= i < s.len() && s[i].0 == id
}

/// The position of the entry tagged `id` in the snapshot stack `s`.
pub open spec fn snapshot_index(s: Seq<(u64, StateV)>, id: u64) -> int {
    choose|i: int| 0 <= i < s.len() && s[i].0 == id
}

/// The state captured under `id` in the snapshot stack `s`.
pub open spec fn snapshot_state(s: Seq<(u64, StateV)>, id: u64) -> StateV {
    s[snapshot_index(s, id)].1
}

/// The state-backend contract: reads that default absent keys to zero values,
/// wholesale writes, batched commits, and a snapshot/revert mechanism.
///
/// A backend models its observable data as:
/// - `state()`: the explicitly stored account and storage entries;
/// - `known_hashes()`: the block hashes it can serve locally;
/// - `snaps()` and `next_snapshot_id()`: the stack of captured states, each
///   tagged with the strictly increasing id it was issued.
///
/// A backend that is `self_contained()` serves every read from its own state:
/// such reads never fail and never change the backend. One that is not (the
/// caching adapter) consults a fallback source on a miss and either memoizes
/// the answer it hands back — so a key is fetched at most once — or reports
/// `BackendError::Unavailable`, memoizing nothing.
pub trait Db: Sized {
    /// Whether the backend representation is well formed.
    spec fn wf(&self) -> bool;

    /// The explicitly stored account and storage entries.
    spec fn state(&self) -> StateV;

    /// The block hashes the backend can serve without a fallback.
    spec fn known_hashes(&self) -> Map<u64, Word>;

    /// The stack of captured states, oldest first, tagged with their ids.
    spec fn snaps(&self) -> Seq<(u64, StateV)>;

    /// The id the next `snapshot` call returns.
    spec fn next_snapshot_id(&self) -> u64;

    /// Whether `snapshot` and `revert` are supported.
    spec fn supports_snapshots(&self) -> bool;

    /// Whether every read is served from the backend's own state.
    spec fn self_contained(&self) -> bool;

    /// Whether `maybe_state_root` can compute a state commitment.
    spec fn computes_state_root(&self) -> bool;

    /// On a well-formed backend the snapshot stack carries strictly
    /// increasing ids, all below the next id to issue: an id is never
    /// reused within one backend instance's lifetime.
    proof fn snapshot_ids_invariant(&self)
        requires
            self.wf(),
        ensures
            forall|i: int, j: int|
                0 <= i < j < self.snaps().len() ==> self.snaps()[i].0 < self.snaps()[j].0,
            forall|i: int|
                0 <= i < self.snaps().len() ==> (#[trigger] self.snaps()[i]).0
                    < self.next_snapshot_id(),
    ;

    /// Reads `address`'s account: the stored record, the zero-value account
    /// when the address was never inserted, or a memoized fallback answer.
    fn basic(&mut self, address: Address) -> (r: Result<AccountInfo, BackendError>)
        requires
            old(self).wf(),
        ensures
            final(self).wf(),
            final(self).supports_snapshots() == old(self).supports_snapshots(),
            final(self).self_contained() == old(self).self_contained(),
            final(self).computes_state_root() == old(self).computes_state_root(),
            final(self).snaps() == old(self).snaps(),
            final(self).next_snapshot_id() == old(self).next_snapshot_id(),
            final(self).known_hashes() == old(self).known_hashes(),
            final(self).state().storage == old(self).state().storage,
            r is Err ==> final(self).state() == old(self).state(),
            r matches Ok(info) ==> (final(self).state().accounts == old(self).state().accounts
                || final(self).state().accounts == old(self).state().accounts.insert(
                address,
                info@,
            )),
            r matches Ok(info) ==> info@ == basic_of(final(self).state(), address),
            !old(self).self_contained() ==> (r matches Ok(info) ==> final(self).state().accounts
                == old(self).state().accounts.insert(address, info@)),
            old(self).state().accounts.contains_key(address) ==> r is Ok && *final(self) == *old(self),
            old(self).self_contained() ==> r is Ok && *final(self) == *old(self),
    ;

    /// Reads the storage slot `slot` of `address`: the stored word, zero when
    /// the slot was never written, or a memoized fallback answer.
    fn storage(&mut self, address: Address, slot: Word) -> (r: Result<Word, BackendError>)
        requires
            old(self).wf(),
        ensures
            final(self).wf(),
            final(self).supports_snapshots() == old(self).supports_snapshots(),
            final(self).self_contained() == old(self).self_contained(),
            final(self).computes_state_root() == old(self).computes_state_root(),
            final(self).snaps() == old(self).snaps(),
            final(self).next_snapshot_id() == old(self).next_snapshot_id(),
            final(self).known_hashes() == old(self).known_hashes(),
            final(self).state().accounts == old(self).state().accounts,
            r is Err ==> final(self).state() == old(self).state(),
            r matches Ok(v) ==> (final(self).state().storage == old(self).state().storage
                || final(self).state().storage == old(self).state().storage.insert(
                slot_key(address, slot),
                v,
            )),
            r matches Ok(v) ==> v == crate::state::storage_of(
                final(self).state(),
                slot_key(address, slot),
            ),
            !old(self).self_contained() ==> (r matches Ok(v) ==> final(self).state().storage
                == old(self).state().storage.insert(slot_key(address, slot), v)),
            old(self).state().storage.contains_key(slot_key(address, slot)) ==> r is Ok && *final(self) == *old(self),
            old(self).self_contained() ==> r is Ok && *final(self) == *old(self),
    ;

    /// Reads the block hash recorded for height `number`, or a memoized
    /// fallback answer.
    fn block_hash(&mut self, number: u64) -> (r: Result<Word, BackendError>)
        requires
            old(self).wf(),
        ensures
            final(self).wf(),
            final(self).supports_snapshots() == old(self).supports_snapshots(),
            final(self).self_contained() == old(self).self_contained(),
            final(self).computes_state_root() == old(self).computes_state_root(),
            final(self).snaps() == old(self).snaps(),
            final(self).next_snapshot_id() == old(self).next_snapshot_id(),
            final(self).state() == old(self).state(),
            r is Err ==> final(self).known_hashes() == old(self).known_hashes(),
            r matches Ok(h) ==> (final(self).known_hashes() == old(self).known_hashes()
                || final(self).known_hashes() == old(self).known_hashes().insert(number, h)),
            r matches Ok(h) ==> h == hash_of(final(self).known_hashes(), number),
            !old(self).self_contained() ==> (r matches Ok(h) ==> final(self).known_hashes()
                == old(self).known_hashes().insert(number, h)),
            old(self).known_hashes().contains_key(number) ==> r is Ok && *final(self) == *old(self),
            old(self).self_contained() ==> r is Ok && *final(self) == *old(self),
    ;

    /// Replaces `address`'s account record wholesale: the fundamental
    /// account write.
    fn insert_account(&mut self, address: Address, account: AccountInfo)
        requires
            old(self).wf(),
        ensures
            final(self).wf(),
            final(self).supports_snapshots() == old(self).supports_snapshots(),
            final(self).self_contained() == old(self).self_contained(),
            final(self).computes_state_root() == old(self).computes_state_root(),
            final(self).snaps() == old(self).snaps(),
            final(self).next_snapshot_id() == old(self).next_snapshot_id(),
            final(self).known_hashes() == old(self).known_hashes(),
            final(self).state().accounts == old(self).state().accounts.insert(address, account@),
            final(self).state().storage == old(self).state().storage,
    ;

    /// Writes the storage slot `slot` of `address`: the fundamental storage
    /// write.
    fn set_storage_at(&mut self, address: Address, slot: Word, val: Word)
        requires
            old(self).wf(),
        ensures
            final(self).wf(),
            final(self).supports_snapshots() == old(self).supports_snapshots(),
            final(self).self_contained() == old(self).self_contained(),
            final(self).computes_state_root() == old(self).computes_state_root(),
            final(self).snaps() == old(self).snaps(),
            final(self).next_snapshot_id() == old(self).next_snapshot_id(),
            final(self).known_hashes() == old(self).known_hashes(),
            final(self).state().accounts == old(self).state().accounts,
            final(self).state().storage == old(self).state().storage.insert(
                slot_key(address, slot),
                val,
            ),
    ;

    /// Reads `address`'s contract code: the stored bytes, or empty when the
    /// account has none.
    fn code(&mut self, address: Address) -> (r: Result<Vec<u8>, BackendError>)
        requires
            old(self).wf(),
        ensures
            final(self).wf(),
            final(self).supports_snapshots() == old(self).supports_snapshots(),
            final(self).self_contained() == old(self).self_contained(),
            final(self).computes_state_root() == old(self).computes_state_root(),
            final(self).snaps() == old(self).snaps(),
            final(self).next_snapshot_id() == old(self).next_snapshot_id(),
            final(self).known_hashes() == old(self).known_hashes(),
            final(self).state().storage == old(self).state().storage,
            r is Err ==> final(self).state() == old(self).state(),
            r matches Ok(c) ==> c@ == code_of(basic_of(final(self).state(), address)),
            r is Ok ==> (final(self).state().accounts == old(self).state().accounts
                || final(self).state().accounts == old(self).state().accounts.insert(
                address,
                basic_of(final(self).state(), address),
            )),
            old(self).state().accounts.contains_key(address) ==> r is Ok,
            old(self).self_contained() ==> r is Ok && *final(self) == *old(self),
    {
        let info = match self.basic(address) {
            Ok(info) => info,
            Err(e) => {
                return Err(e);
            }
        };
        match info.code {
            Some(c) => Ok(c),
            None => Ok(Vec::new()),
        }
    }

    /// Applies a batch of account and storage writes, in order. From the
    /// caller's perspective the batch is atomic: no other caller can run
    /// between the writes, and afterwards the state is exactly the batch
    /// applied to the old state.
    fn commit(&mut self, update: StateUpdate)
        requires
            old(self).wf(),
        ensures
            final(self).wf(),
            final(self).supports_snapshots() == old(self).supports_snapshots(),
            final(self).self_contained() == old(self).self_contained(),
            final(self).computes_state_root() == old(self).computes_state_root(),
            final(self).snaps() == old(self).snaps(),
            final(self).next_snapshot_id() == old(self).next_snapshot_id(),
            final(self).known_hashes() == old(self).known_hashes(),
            final(self).state() == apply_update(old(self).state(), update),
    {
        let ghost pre = *self;
        let mut i: usize = 0;
        while i < update.accounts.len()
            invariant
                self.wf(),
                i <= update.accounts.len(),
                self.supports_snapshots() == pre.supports_snapshots(),
                self.self_contained() == pre.self_contained(),
                self.computes_state_root() == pre.computes_state_root(),
                self.snaps() == pre.snaps(),
                self.next_snapshot_id() == pre.next_snapshot_id(),
                self.known_hashes() == pre.known_hashes(),
                self.state().accounts == apply_accounts(
                    pre.state().accounts,
                    update.accounts@.take(i as int),
                ),
                self.state().storage == pre.state().storage,
            decreases update.accounts.len() - i,
        {
            let p = &update.accounts[i];
            let account = p.1.dup();
            self.insert_account(p.0, account);
            proof {
                lemma_apply_accounts_step(pre.state().accounts, update.accounts@, i as int);
            }
            i = i + 1;
        }
        proof {
            assert(update.accounts@.take(update.accounts@.len() as int) =~= update.accounts@);
        }
        let mut j: usize = 0;
        while j < update.storage.len()
            invariant
                self.wf(),
                j <= update.storage.len(),
                self.supports_snapshots() == pre.supports_snapshots(),
                self.self_contained() == pre.self_contained(),
                self.computes_state_root() == pre.computes_state_root(),
                self.snaps() == pre.snaps(),
                self.next_snapshot_id() == pre.next_snapshot_id(),
                self.known_hashes() == pre.known_hashes(),
                self.state().accounts == apply_accounts(pre.state().accounts, update.accounts@),
                self.state().storage == apply_storage(
                    pre.state().storage,
                    update.storage@.take(j as int),
                ),
            decreases update.storage.len() - j,
        {
            let q = &update.storage[j];
            self.set_storage_at(q.0.addr, q.0.slot, q.1);
            proof {
                lemma_apply_storage_step(pre.state().storage, update.storage@, j as int);
                assert(slot_key(update.storage@[j as int].0.addr, update.storage@[j as int].0.slot)
                    == update.storage@[j as int].0);
            }
            j = j + 1;
        }
        proof {
            assert(update.storage@.take(update.storage@.len() as int) =~= update.storage@);
            assert(self.state() == apply_update(pre.state(), update));
        }
    }

    /// Reads `address`'s account, overwrites its nonce, and stores it back.
    /// Every other field and every other account is left as observed.
    fn set_nonce(&mut self, address: Address, nonce: u64) -> (r: Result<(), BackendError>)
        requires
            old(self).wf(),
        ensures
            final(self).wf(),
            final(self).supports_snapshots() == old(self).supports_snapshots(),
            final(self).self_contained() == old(self).self_contained(),
            final(self).computes_state_root() == old(self).computes_state_root(),
            final(self).snaps() == old(self).snaps(),
            final(self).next_snapshot_id() == old(self).next_snapshot_id(),
            final(self).known_hashes() == old(self).known_hashes(),
            final(self).state().storage == old(self).state().storage,
            r is Err ==> final(self).state() == old(self).state(),
            r is Ok ==> (exists|prior: AccountV|
                final(self).state().accounts == old(self).state().accounts.insert(
                    address,
                    #[trigger] with_nonce(prior, nonce),
                ) && (old(self).state().accounts.contains_key(address) ==> prior == old(self).state().accounts[address]) && (old(self).self_contained() ==> prior == basic_of(
                    old(self).state(),
                    address,
                ))),
            old(self).state().accounts.contains_key(address) ==> r is Ok,
            old(self).self_contained() ==> r is Ok,
    {
        let info = match self.basic(address) {
            Ok(info) => info,
            Err(e) => {
                return Err(e);
            }
        };
        let ghost prior = info@;
        let updated = AccountInfo { nonce: nonce, balance: info.balance, code: info.code };
        proof {
            assert(updated@ == with_nonce(prior, nonce));
        }
        self.insert_account(address, updated);
        proof {
            assert(old(self).state().accounts.insert(address, prior).insert(
                address,
                with_nonce(prior, nonce),
            ) =~= old(self).state().accounts.insert(address, with_nonce(prior, nonce)));
        }
        Ok(())
    }

    /// Reads `address`'s account, overwrites its balance, and stores it back.
    /// Every other field and every other account is left as observed.
    fn set_balance(&mut self, address: Address, balance: Word) -> (r: Result<(), BackendError>)
        requires
            old(self).wf(),
        ensures
            final(self).wf(),
            final(self).supports_snapshots() == old(self).supports_snapshots(),
            final(self).self_contained() == old(self).self_contained(),
            final(self).computes_state_root() == old(self).computes_state_root(),
            final(self).snaps() == old(self).snaps(),
            final(self).next_snapshot_id() == old(self).next_snapshot_id(),
            final(self).known_hashes() == old(self).known_hashes(),
            final(self).state().storage == old(self).state().storage,
            r is Err ==> final(self).state() == old(self).state(),
            r is Ok ==> (exists|prior: AccountV|
                final(self).state().accounts == old(self).state().accounts.insert(
                    address,
                    #[trigger] with_balance(prior, balance),
                ) && (old(self).state().accounts.contains_key(address) ==> prior == old(self).state().accounts[address]) && (old(self).self_contained() ==> prior == basic_of(
                    old(self).state(),
                    address,
                ))),
            old(self).state().accounts.contains_key(address) ==> r is Ok,
            old(self).self_contained() ==> r is Ok,
    {
        let info = match self.basic(address) {
            Ok(info) => info,
            Err(e) => {
                return Err(e);
            }
        };
        let ghost prior = info@;
        let updated = AccountInfo { nonce: info.nonce, balance: balance, code: info.code };
        proof {
            assert(updated@ == with_balance(prior, balance));
        }
        self.insert_account(address, updated);
        proof {
            assert(old(self).state().accounts.insert(address, prior).insert(
                address,
                with_balance(prior, balance),
            ) =~= old(self).state().accounts.insert(address, with_balance(prior, balance)));
        }
        Ok(())
    }

    /// Reads `address`'s account, overwrites its code, and stores it back.
    /// Every other field and every other account is left as observed.
    fn set_code(&mut self, address: Address, code: Vec<u8>) -> (r: Result<(), BackendError>)
        requires
            old(self).wf(),
        ensures
            final(self).wf(),
            final(self).supports_snapshots() == old(self).supports_snapshots(),
            final(self).self_contained() == old(self).self_contained(),
            final(self).computes_state_root() == old(self).computes_state_root(),
            final(self).snaps() == old(self).snaps(),
            final(self).next_snapshot_id() == old(self).next_snapshot_id(),
            final(self).known_hashes() == old(self).known_hashes(),
            final(self).state().storage == old(self).state().storage,
            r is Err ==> final(self).state() == old(self).state(),
            r is Ok ==> (exists|prior: AccountV|
                final(self).state().accounts == old(self).state().accounts.insert(
                    address,
                    #[trigger] with_code(prior, code@),
                ) && (old(self).state().accounts.contains_key(address) ==> prior == old(self).state().accounts[address]) && (old(self).self_contained() ==> prior == basic_of(
                    old(self).state(),
                    address,
                ))),
            old(self).state().accounts.contains_key(address) ==> r is Ok,
            old(self).self_contained() ==> r is Ok,
    {
        let info = match self.basic(address) {
            Ok(info) => info,
            Err(e) => {
                return Err(e);
            }
        };
        let ghost prior = info@;
        let updated = AccountInfo { nonce: info.nonce, balance: info.balance, code: Some(code) };
        proof {
            assert(updated@ == with_code(prior, code@));
        }
        self.insert_account(address, updated);
        proof {
            assert(old(self).state().accounts.insert(address, prior).insert(
                address,
                with_code(prior, code@),
            ) =~= old(self).state().accounts.insert(address, with_code(prior, code@)));
        }
        Ok(())
    }

    /// Captures the current state and returns a fresh, strictly increasing
    /// id for it. A backend without snapshot support returns the fixed
    /// sentinel id `0` and captures nothing.
    fn snapshot(&mut self) -> (id: u64)
        requires
            old(self).wf(),
            old(self).next_snapshot_id() < u64::MAX,
        ensures
            final(self).wf(),
            final(self).supports_snapshots() == old(self).supports_snapshots(),
            final(self).self_contained() == old(self).self_contained(),
            final(self).computes_state_root() == old(self).computes_state_root(),
            final(self).state() == old(self).state(),
            final(self).known_hashes() == old(self).known_hashes(),
            old(self).supports_snapshots() ==> id == old(self).next_snapshot_id() && final(self).next_snapshot_id() == id + 1 && final(self).snaps() == old(self).snaps().push(
                (id, old(self).state()),
            ),
            !old(self).supports_snapshots() ==> *final(self) == *old(self) && id == 0,
    ;

    /// Restores the state captured under `id` and discards it together with
    /// every later capture. Returns `false`, and changes nothing, when `id`
    /// was never issued, was already superseded by an earlier revert, or the
    /// backend has no snapshot support.
    fn revert(&mut self, id: u64) -> (r: bool)
        requires
            old(self).wf(),
        ensures
            final(self).wf(),
            final(self).supports_snapshots() == old(self).supports_snapshots(),
            final(self).self_contained() == old(self).self_contained(),
            final(self).computes_state_root() == old(self).computes_state_root(),
            final(self).known_hashes() == old(self).known_hashes(),
            final(self).next_snapshot_id() == old(self).next_snapshot_id(),
            r == (old(self).supports_snapshots() && has_snapshot(old(self).snaps(), id)),
            !r ==> *final(self) == *old(self),
            r ==> final(self).state() == snapshot_state(old(self).snaps(), id) && final(self).snaps() == old(self).snaps().take(snapshot_index(old(self).snaps(), id)),
    ;

    /// A cryptographic commitment over the full state, for a backend that
    /// can compute one cheaply; `None` means "unsupported", not "empty".
    fn maybe_state_root(&self) -> (r: Option<Word>)
        ensures
            r is Some ==> self.computes_state_root(),
    {
        None
    }
}

} // verus!
