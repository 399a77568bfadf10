//! The backend state: the account and storage mappings that a backend owns,
//! the defaulted read semantics over them, and batched updates.

use vstd::prelude::*;
use crate::alist::AList;
use crate::types::{zero_account, word_zero, AccountInfo, AccountV, Address, SlotKey, Word};

verus! {

/// The mathematical value of a backend's mutable state: the explicitly
/// stored account records and storage slots. A key that is absent reads as
/// the zero value; an explicit entry may itself hold a zero value.
pub struct StateV {
    pub accounts: Map<Address, AccountV>,
    pub storage: Map<SlotKey, Word>,
}

/// The state with no explicit entries.
pub open spec fn state_empty() -> StateV {
    StateV { accounts: Map::empty(), storage: Map::empty() }
}

/// What a read of `a`'s account observes in state `s`: the stored record,
/// or the zero-value account when none was ever inserted.
pub open spec fn basic_of(s: StateV, a: Address) -> AccountV {
    if s.accounts.contains_key(a) {
        s.accounts[a]
    } else {
        zero_account()
    }
}

/// What a read of the storage slot `key` observes in state `s`: the stored
/// word, or zero when the slot was never written.
pub open spec fn storage_of(s: StateV, key: SlotKey) -> Word {
    if s.storage.contains_key(key) {
        s.storage[key]
    } else {
        word_zero()
    }
}

/// The code of an account value: its stored bytes, or empty when it has none.
pub open spec fn code_of(acc: AccountV) -> Seq<u8> {
    match acc.code {
        Some(c) => c,
        None => Seq::empty(),
    }
}

/// The in-memory representation of a backend state.
pub struct StateMap {
    accounts: AList<Address, AccountInfo>,
    storage: AList<SlotKey, Word>,
}

impl View for StateMap {
    type V = StateV;

    closed spec fn view(&self) -> StateV {
        StateV { accounts: self.accounts@, storage: self.storage@ }
    }
}

impl StateMap {
    /// Whether the representation is well formed.
    pub closed spec fn wf(&self) -> bool {
        self.accounts.wf() && self.storage.wf()
    }

    /// An empty state.
    pub fn new() -> (r: StateMap)
        ensures
            r.wf(),
            r@ == state_empty(),
    {
        let r = StateMap { accounts: AList::new(), storage: AList::new() };
        proof {
            assert(r@ =~= state_empty()) by {
                assert(r@.accounts =~= state_empty().accounts);
                assert(r@.storage =~= state_empty().storage);
            }
        }
        r
    }

    /// The stored record for `a`, if one exists.
    pub fn get_account(&self, a: Address) -> (r: Option<&AccountInfo>)
        requires
            self.wf(),
        ensures
            match r {
                Some(info) => self@.accounts.contains_key(a) && info@ == self@.accounts[a],
                None => !self@.accounts.contains_key(a),
            },
    {
        self.accounts.get(&a)
    }

    /// The stored word for the slot `key`, if one exists.
    pub fn get_storage(&self, key: SlotKey) -> (r: Option<&Word>)
        requires
            self.wf(),
        ensures
            match r {
                Some(w) => self@.storage.contains_key(key) && *w == self@.storage[key],
                None => !self@.storage.contains_key(key),
            },
    {
        self.storage.get(&key)
    }

    /// What a read of `a`'s account observes: the stored record or the
    /// zero-value account.
    pub fn read_basic(&self, a: Address) -> (r: AccountInfo)
        requires
            self.wf(),
        ensures
            r@ == basic_of(self@, a),
    {
        match self.accounts.get(&a) {
            Some(info) => info.dup(),
            None => AccountInfo::zero(),
        }
    }

    /// What a read of the slot `key` observes: the stored word or zero.
    pub fn read_storage(&self, key: SlotKey) -> (r: Word)
        requires
            self.wf(),
        ensures
            r == storage_of(self@, key),
    {
        match self.storage.get(&key) {
            Some(w) => *w,
            None => Word::zero(),
        }
    }

    /// Replaces the record stored for `a` wholesale.
    pub fn put_account(&mut self, a: Address, info: AccountInfo)
        requires
            old(self).wf(),
        ensures
            final(self).wf(),
            final(self)@.accounts == old(self)@.accounts.insert(a, info@),
            final(self)@.storage == old(self)@.storage,
    {
        self.accounts.set(a, info);
    }

    /// Writes the word stored in the slot `key`.
    pub fn put_storage(&mut self, key: SlotKey, val: Word)
        requires
            old(self).wf(),
        ensures
            final(self).wf(),
            final(self)@.accounts == old(self)@.accounts,
            final(self)@.storage == old(self)@.storage.insert(key, val),
    {
        self.storage.set(key, val);
    }

    /// An exact copy of the state.
    pub fn dup(&self) -> (r: StateMap)
        requires
            self.wf(),
        ensures
            r.wf(),
            r@ == self@,
    {
        let r = StateMap { accounts: self.accounts.dup(), storage: self.storage.dup() };
        r
    }

    /// Whether this state and `other` hold exactly the same entries.
    pub fn state_eq(&self, other: &StateMap) -> (b: bool)
        requires
            self.wf(),
            other.wf(),
        ensures
            b == (self@ == other@),
    {
        let b = self.accounts.map_eq(&other.accounts) && self.storage.map_eq(&other.storage);
        b
    }
}

/// A batch of account and storage mutations, applied in order.
pub struct StateUpdate {
    pub accounts: Vec<(Address, AccountInfo)>,
    pub storage: Vec<(SlotKey, Word)>,
}

/// The account map after the writes in `s` are applied in order.
pub open spec fn apply_accounts(m: Map<Address, AccountV>, s: Seq<(Address, AccountInfo)>) -> Map<
    Address,
    AccountV,
>
    decreases s.len(),
{
    if s.len() == 0 {
        m
    } else {
        apply_accounts(m, s.drop_last()).insert(s.last().0, s.last().1@)
    }
}

/// The storage map after the writes in `s` are applied in order.
pub open spec fn apply_storage(m: Map<SlotKey, Word>, s: Seq<(SlotKey, Word)>) -> Map<
    SlotKey,
    Word,
>
    decreases s.len(),
{
    if s.len() == 0 {
        m
    } else {
        apply_storage(m, s.drop_last()).insert(s.last().0, s.last().1)
    }
}

/// The state after every write in the batch `u` is applied in order.
pub open spec fn apply_update(s: StateV, u: StateUpdate) -> StateV {
    StateV {
        accounts: apply_accounts(s.accounts, u.accounts@),
        storage: apply_storage(s.storage, u.storage@),
    }
}

/// Applying one more account write extends the applied prefix by one insert.
pub proof fn lemma_apply_accounts_step(m: Map<Address, AccountV>, s: Seq<(Address, AccountInfo)>, i: int)
    requires
        0 <= i < s.len(),
    ensures
        apply_accounts(m, s.take(i + 1)) == apply_accounts(m, s.take(i)).insert(s[i].0, s[i].1@),
{
    assert(s.take(i + 1).drop_last() =~= s.take(i));
    assert(s.take(i + 1).last() == s[i]);
}

/// Applying one more storage write extends the applied prefix by one insert.
pub proof fn lemma_apply_storage_step(m: Map<SlotKey, Word>, s: Seq<(SlotKey, Word)>, i: int)
    requires
        0 <= i < s.len(),
    ensures
        apply_storage(m, s.take(i + 1)) == apply_storage(m, s.take(i)).insert(s[i].0, s[i].1),
{
    assert(s.take(i + 1).drop_last() =~= s.take(i));
    assert(s.take(i + 1).last() == s[i]);
}

} // verus!
