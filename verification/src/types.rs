//! The plain data model: account identifiers, 256-bit words, storage slot
//! keys, account records and the backend error type.

use vstd::prelude::*;

verus! {

/// A 160-bit account identifier, held as three little-endian machine words.
#[derive(Clone, Copy, PartialEq, Eq, Structural, Debug)]
pub struct Address {
    pub w0: u64,
    pub w1: u64,
    pub w2: u32,
}

impl Address {
    /// Embeds a small number into an address.
    pub fn from_u64(v: u64) -> (r: Address)
        ensures
            r == (Address { w0: v, w1: 0, w2: 0 }),
    {
        Address { w0: v, w1: 0, w2: 0 }
    }
}

/// An unsigned 256-bit value, held as four 64-bit limbs, least significant
/// limb first.
#[derive(Clone, Copy, PartialEq, Eq, Structural, Debug)]
pub struct Word {
    pub l0: u64,
    pub l1: u64,
    pub l2: u64,
    pub l3: u64,
}

/// The zero word: the value of every storage slot that was never written.
pub open spec fn word_zero() -> Word {
    Word { l0: 0, l1: 0, l2: 0, l3: 0 }
}

impl View for Word {
    type V = Word;

    open spec fn view(&self) -> Word {
        *self
    }
}

impl Word {
    /// The zero word.
    pub fn zero() -> (r: Word)
        ensures
            r == word_zero(),
    {
        Word { l0: 0, l1: 0, l2: 0, l3: 0 }
    }

    /// Embeds a small number into a word.
    pub fn from_u64(v: u64) -> (r: Word)
        ensures
            r == (Word { l0: v, l1: 0, l2: 0, l3: 0 }),
    {
        Word { l0: v, l1: 0, l2: 0, l3: 0 }
    }
}

/// A storage slot key: a 256-bit key scoped to one account.
#[derive(Clone, Copy, PartialEq, Eq, Structural, Debug)]
pub struct SlotKey {
    pub addr: Address,
    pub slot: Word,
}

/// The slot key for `slot` under the account at `addr`.
pub open spec fn slot_key(addr: Address, slot: Word) -> SlotKey {
    SlotKey { addr, slot }
}

/// The mathematical value of an account record.
pub struct AccountV {
    pub nonce: u64,
    pub balance: Word,
    pub code: Option<Seq<u8>>,
}

/// The zero-value account: what every address holds before any write.
pub open spec fn zero_account() -> AccountV {
    AccountV { nonce: 0, balance: word_zero(), code: None }
}

/// The account value `a` with its nonce overwritten by `n`.
pub open spec fn with_nonce(a: AccountV, n: u64) -> AccountV {
    AccountV { nonce: n, balance: a.balance, code: a.code }
}

/// The account value `a` with its balance overwritten by `b`.
pub open spec fn with_balance(a: AccountV, b: Word) -> AccountV {
    AccountV { nonce: a.nonce, balance: b, code: a.code }
}

/// The account value `a` with its code overwritten by `c`.
pub open spec fn with_code(a: AccountV, c: Seq<u8>) -> AccountV {
    AccountV { nonce: a.nonce, balance: a.balance, code: Some(c) }
}

/// An account record: nonce, balance, and optional contract code.
#[derive(Clone, PartialEq, Eq, Debug)]
pub struct AccountInfo {
    pub nonce: u64,
    pub balance: Word,
    pub code: Option<Vec<u8>>,
}

impl View for AccountInfo {
    type V = AccountV;

    open spec fn view(&self) -> AccountV {
        AccountV {
            nonce: self.nonce,
            balance: self.balance,
            code: match self.code {
                Some(c) => Some(c@),
                None => None,
            },
        }
    }
}

/// Copies a byte vector.
fn copy_bytes(v: &Vec<u8>) -> (r: Vec<u8>)
    ensures
        r@ == v@,
{
    let mut out: Vec<u8> = Vec::new();
    let mut i: usize = 0;
    while i < v.len()
        invariant
            i <= v.len(),
            out@ == v@.subrange(0, i as int),
        decreases v.len() - i,
    {
        out.push(v[i]);
        i = i + 1;
        proof {
            assert(out@ =~= v@.subrange(0, i as int));
        }
    }
    proof {
        assert(out@ =~= v@);
    }
    out
}

/// Whether two byte vectors hold the same bytes.
fn bytes_eq(a: &Vec<u8>, b: &Vec<u8>) -> (r: bool)
    ensures
        r == (a@ == b@),
{
    if a.len() != b.len() {
        return false;
    }
    let mut i: usize = 0;
    while i < a.len()
        invariant
            i <= a.len(),
            a.len() == b.len(),
            forall|j: int| 0 <= j < i ==> a@[j] == b@[j],
        decreases a.len() - i,
    {
        if a[i] != b[i] {
            return false;
        }
        i = i + 1;
    }
    proof {
        assert(a@ =~= b@);
    }
    true
}

impl AccountInfo {
    /// The zero-value account record.
    pub fn zero() -> (r: AccountInfo)
        ensures
            r@ == zero_account(),
    {
        AccountInfo { nonce: 0, balance: Word::zero(), code: None }
    }

    /// An exact copy of this record.
    pub fn dup(&self) -> (r: AccountInfo)
        ensures
            r@ == self@,
    {
        let code = match &self.code {
            Some(c) => Some(copy_bytes(c)),
            None => None,
        };
        AccountInfo { nonce: self.nonce, balance: self.balance, code }
    }

    /// Whether this record and `other` hold the same account value.
    pub fn eq_value(&self, other: &AccountInfo) -> (b: bool)
        ensures
            b == (self@ == other@),
    {
        if self.nonce != other.nonce {
            return false;
        }
        if self.balance != other.balance {
            return false;
        }
        match (&self.code, &other.code) {
            (None, None) => true,
            (Some(a), Some(b)) => bytes_eq(a, b),
            _ => false,
        }
    }
}

/// Why a read could not be served: the fallback source was unreachable.
#[derive(Clone, Copy, PartialEq, Eq, Structural, Debug)]
pub enum BackendError {
    Unavailable,
}

} // verus!
