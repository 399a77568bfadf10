use anvil_db::alist::AList;
use anvil_db::backend::Db;
use anvil_db::cache::{CachingAdapter, FallbackSource, FixedSource};
use anvil_db::mem::MemDb;
use anvil_db::state::StateUpdate;
use anvil_db::types::{AccountInfo, Address, BackendError, SlotKey, Word};

fn addr(n: u64) -> Address {
    Address::from_u64(n)
}

fn word(n: u64) -> Word {
    Word::from_u64(n)
}

fn account(nonce: u64, balance: u64, code: Option<Vec<u8>>) -> AccountInfo {
    AccountInfo { nonce, balance: word(balance), code }
}

/// A fallback stub that counts every fetch and serves fixed data.
struct CountingSource {
    basic_calls: u32,
    storage_calls: u32,
    hash_calls: u32,
}

impl FallbackSource for CountingSource {
    fn fetch_basic(&mut self, _address: Address) -> Result<AccountInfo, BackendError> {
        self.basic_calls += 1;
        Ok(account(5, 50, Some(vec![1, 2])))
    }

    fn fetch_storage(&mut self, _address: Address, _slot: Word) -> Result<Word, BackendError> {
        self.storage_calls += 1;
        Ok(word(42))
    }

    fn fetch_block_hash(&mut self, _number: u64) -> Result<Word, BackendError> {
        self.hash_calls += 1;
        Ok(word(77))
    }
}

fn counting() -> CountingSource {
    CountingSource { basic_calls: 0, storage_calls: 0, hash_calls: 0 }
}

/// A fallback stub whose source is unreachable.
struct FailingSource;

impl FallbackSource for FailingSource {
    fn fetch_basic(&mut self, _address: Address) -> Result<AccountInfo, BackendError> {
        Err(BackendError::Unavailable)
    }

    fn fetch_storage(&mut self, _address: Address, _slot: Word) -> Result<Word, BackendError> {
        Err(BackendError::Unavailable)
    }

    fn fetch_block_hash(&mut self, _number: u64) -> Result<Word, BackendError> {
        Err(BackendError::Unavailable)
    }
}

#[test]
fn adapter_fetches_missing_slot_once() {
    let mut adapter = CachingAdapter::new(counting());
    let first = adapter.storage(addr(1), word(9)).unwrap();
    assert_eq!(first, word(42));
    assert_eq!(adapter.fallback_ref().storage_calls, 1);
    // the second read is served from the memoized value
    let second = adapter.storage(addr(1), word(9)).unwrap();
    assert_eq!(second, word(42));
    assert_eq!(adapter.fallback_ref().storage_calls, 1);
    // a different slot is its own key
    adapter.storage(addr(1), word(10)).unwrap();
    assert_eq!(adapter.fallback_ref().storage_calls, 2);
}

#[test]
fn adapter_fetches_missing_account_once() {
    let mut adapter = CachingAdapter::new(counting());
    let first = adapter.basic(addr(8)).unwrap();
    assert_eq!(first, account(5, 50, Some(vec![1, 2])));
    let second = adapter.basic(addr(8)).unwrap();
    assert_eq!(second, first);
    assert_eq!(adapter.fallback_ref().basic_calls, 1);
}

#[test]
fn adapter_block_hash_memoized() {
    let mut adapter = CachingAdapter::new(counting());
    assert_eq!(adapter.block_hash(3).unwrap(), word(77));
    assert_eq!(adapter.block_hash(3).unwrap(), word(77));
    assert_eq!(adapter.fallback_ref().hash_calls, 1);
}

#[test]
fn adapter_snapshot_returns_sentinel_and_revert_fails() {
    let mut adapter = CachingAdapter::new(counting());
    assert_eq!(adapter.snapshot(), 0);
    assert_eq!(adapter.snapshot(), 0);
    assert!(!adapter.revert(0));
    assert!(!adapter.revert(123));
    // failure to revert left the overrides untouched
    adapter.insert_account(addr(1), account(1, 1, None));
    assert!(!adapter.revert(0));
    assert_eq!(adapter.basic(addr(1)).unwrap(), account(1, 1, None));
}

#[test]
fn adapter_writes_never_reach_fallback() {
    let mut adapter = CachingAdapter::new(counting());
    adapter.insert_account(addr(2), account(9, 90, None));
    adapter.set_storage_at(addr(2), word(0), word(11));
    // local overrides answer without consulting the fallback
    assert_eq!(adapter.basic(addr(2)).unwrap(), account(9, 90, None));
    assert_eq!(adapter.storage(addr(2), word(0)).unwrap(), word(11));
    let src = adapter.into_fallback();
    assert_eq!(src.basic_calls, 0);
    assert_eq!(src.storage_calls, 0);
}

#[test]
fn adapter_write_shadows_fallback_value() {
    let mut adapter = CachingAdapter::new(counting());
    // fetched once, then overwritten locally
    assert_eq!(adapter.storage(addr(3), word(1)).unwrap(), word(42));
    adapter.set_storage_at(addr(3), word(1), word(7));
    assert_eq!(adapter.storage(addr(3), word(1)).unwrap(), word(7));
    assert_eq!(adapter.fallback_ref().storage_calls, 1);
}

#[test]
fn adapter_commit_lands_locally() {
    let mut adapter = CachingAdapter::new(counting());
    let update = StateUpdate {
        accounts: vec![(addr(1), account(1, 10, None))],
        storage: vec![(SlotKey { addr: addr(1), slot: word(0) }, word(5))],
    };
    adapter.commit(update);
    // the committed keys are served locally; the fallback was never touched
    assert_eq!(adapter.basic(addr(1)).unwrap(), account(1, 10, None));
    assert_eq!(adapter.storage(addr(1), word(0)).unwrap(), word(5));
    let src = adapter.into_fallback();
    assert_eq!(src.basic_calls, 0);
    assert_eq!(src.storage_calls, 0);
}

#[test]
fn adapter_unavailable_propagates_and_is_not_memoized() {
    let mut adapter = CachingAdapter::new(FailingSource);
    assert_eq!(adapter.basic(addr(1)), Err(BackendError::Unavailable));
    assert_eq!(adapter.storage(addr(1), word(0)), Err(BackendError::Unavailable));
    assert_eq!(adapter.block_hash(5), Err(BackendError::Unavailable));
    // a failed fetch must not plant a value: a later local write still wins
    adapter.insert_account(addr(1), account(3, 30, None));
    assert_eq!(adapter.basic(addr(1)).unwrap(), account(3, 30, None));
}

#[test]
fn fixed_source_serves_captured_state() {
    let mut db = MemDb::new();
    db.insert_account(addr(4), account(2, 25, Some(vec![9])));
    db.set_storage_at(addr(4), word(1), word(5));
    let source = FixedSource::new(db.state_copy(), AList::new());
    let mut adapter = CachingAdapter::new(source);
    assert_eq!(adapter.basic(addr(4)).unwrap(), account(2, 25, Some(vec![9])));
    assert_eq!(adapter.storage(addr(4), word(1)).unwrap(), word(5));
    // an address absent from the fork source reads as the zero account
    assert_eq!(adapter.basic(addr(5)).unwrap(), account(0, 0, None));
    assert_eq!(adapter.block_hash(1).unwrap(), Word::zero());
}
