use anvil_db::backend::Db;
use anvil_db::mem::MemDb;
use anvil_db::state::StateUpdate;
use anvil_db::types::{AccountInfo, Address, SlotKey, Word};

fn addr(n: u64) -> Address {
    Address::from_u64(n)
}

fn word(n: u64) -> Word {
    Word::from_u64(n)
}

fn account(nonce: u64, balance: u64, code: Option<Vec<u8>>) -> AccountInfo {
    AccountInfo { nonce, balance: word(balance), code }
}

#[test]
fn fresh_backend_reads_zero_account() {
    let mut db = MemDb::new();
    let acc = db.basic(addr(1)).unwrap();
    assert_eq!(acc.nonce, 0);
    assert_eq!(acc.balance, Word::zero());
    assert!(acc.code.is_none());
    let also = db.basic(addr(0xdead_beef)).unwrap();
    assert_eq!(also, account(0, 0, None));
}

#[test]
fn fresh_backend_reads_zero_storage() {
    let mut db = MemDb::new();
    assert_eq!(db.storage(addr(1), word(5)).unwrap(), Word::zero());
}

#[test]
fn insert_account_round_trip() {
    let mut db = MemDb::new();
    let acc = account(7, 1000, Some(vec![1, 2, 3]));
    db.insert_account(addr(9), acc.clone());
    assert_eq!(db.basic(addr(9)).unwrap(), acc);
    // an address never inserted still reads as zero
    assert_eq!(db.basic(addr(10)).unwrap(), account(0, 0, None));
}

#[test]
fn insert_account_replaces_wholesale() {
    let mut db = MemDb::new();
    db.insert_account(addr(9), account(7, 1000, Some(vec![1, 2, 3])));
    db.insert_account(addr(9), account(8, 5, None));
    assert_eq!(db.basic(addr(9)).unwrap(), account(8, 5, None));
}

#[test]
fn set_nonce_changes_only_nonce() {
    let mut db = MemDb::new();
    db.insert_account(addr(3), account(1, 500, Some(vec![0xaa])));
    db.insert_account(addr(4), account(9, 9, None));
    let before = db.basic(addr(3)).unwrap();
    db.set_nonce(addr(3), 42).unwrap();
    let after = db.basic(addr(3)).unwrap();
    assert_eq!(after.nonce, 42);
    assert_eq!(after.balance, before.balance);
    assert_eq!(after.code, before.code);
    // other accounts are untouched
    assert_eq!(db.basic(addr(4)).unwrap(), account(9, 9, None));
}

#[test]
fn set_nonce_on_absent_address_starts_from_zero_account() {
    let mut db = MemDb::new();
    db.set_nonce(addr(5), 3).unwrap();
    assert_eq!(db.basic(addr(5)).unwrap(), account(3, 0, None));
}

#[test]
fn set_balance_changes_only_balance() {
    let mut db = MemDb::new();
    db.insert_account(addr(3), account(1, 500, Some(vec![0xaa])));
    db.set_balance(addr(3), word(777)).unwrap();
    let after = db.basic(addr(3)).unwrap();
    assert_eq!(after, account(1, 777, Some(vec![0xaa])));
}

#[test]
fn set_code_changes_only_code() {
    let mut db = MemDb::new();
    db.insert_account(addr(3), account(1, 500, None));
    db.set_code(addr(3), vec![0x60, 0x60]).unwrap();
    let after = db.basic(addr(3)).unwrap();
    assert_eq!(after, account(1, 500, Some(vec![0x60, 0x60])));
}

#[test]
fn code_reads_stored_bytes_or_empty() {
    let mut db = MemDb::new();
    assert_eq!(db.code(addr(2)).unwrap(), Vec::<u8>::new());
    db.set_code(addr(2), vec![9, 8, 7]).unwrap();
    assert_eq!(db.code(addr(2)).unwrap(), vec![9, 8, 7]);
}

#[test]
fn storage_write_then_read() {
    let mut db = MemDb::new();
    db.set_storage_at(addr(1), word(2), word(99));
    assert_eq!(db.storage(addr(1), word(2)).unwrap(), word(99));
    // the same slot key under another address is untouched
    assert_eq!(db.storage(addr(2), word(2)).unwrap(), Word::zero());
}

#[test]
fn commit_applies_account_and_storage_batch() {
    let mut db = MemDb::new();
    let update = StateUpdate {
        accounts: vec![(addr(1), account(1, 10, None)), (addr(2), account(2, 20, None))],
        storage: vec![
            (SlotKey { addr: addr(1), slot: word(0) }, word(5)),
            (SlotKey { addr: addr(2), slot: word(1) }, word(6)),
        ],
    };
    db.commit(update);
    assert_eq!(db.basic(addr(1)).unwrap(), account(1, 10, None));
    assert_eq!(db.basic(addr(2)).unwrap(), account(2, 20, None));
    assert_eq!(db.storage(addr(1), word(0)).unwrap(), word(5));
    assert_eq!(db.storage(addr(2), word(1)).unwrap(), word(6));
}

#[test]
fn commit_applies_writes_in_order() {
    let mut db = MemDb::new();
    let update = StateUpdate {
        accounts: vec![(addr(1), account(1, 10, None)), (addr(1), account(2, 20, None))],
        storage: vec![
            (SlotKey { addr: addr(1), slot: word(0) }, word(5)),
            (SlotKey { addr: addr(1), slot: word(0) }, word(6)),
        ],
    };
    db.commit(update);
    assert_eq!(db.basic(addr(1)).unwrap(), account(2, 20, None));
    assert_eq!(db.storage(addr(1), word(0)).unwrap(), word(6));
}

#[test]
fn snapshot_ids_strictly_increase() {
    let mut db = MemDb::new();
    let id0 = db.snapshot();
    let id1 = db.snapshot();
    assert_ne!(id0, id1);
    assert!(id1 > id0);
    let id2 = db.snapshot();
    assert!(id2 > id1);
}

#[test]
fn nested_snapshot_revert_restores_older_state() {
    let mut db = MemDb::new();
    db.insert_account(addr(7), account(1, 100, None));
    let id0 = db.snapshot();
    db.insert_account(addr(7), account(2, 200, None));
    let id1 = db.snapshot();
    db.insert_account(addr(7), account(3, 300, None));
    assert!(db.revert(id0));
    // the state is exactly as of id0
    assert_eq!(db.basic(addr(7)).unwrap(), account(1, 100, None));
    // the newer id is stale now
    assert!(!db.revert(id1));
}

#[test]
fn revert_unknown_id_changes_nothing() {
    let mut db = MemDb::new();
    db.insert_account(addr(1), account(4, 40, Some(vec![1])));
    db.set_storage_at(addr(1), word(3), word(33));
    let copy = db.state_copy();
    assert!(!db.revert(999));
    // full-state comparison: nothing moved
    assert!(db.state_matches(&copy));
}

#[test]
fn revert_discards_the_used_snapshot() {
    let mut db = MemDb::new();
    let id0 = db.snapshot();
    db.insert_account(addr(1), account(1, 1, None));
    assert!(db.revert(id0));
    assert_eq!(db.basic(addr(1)).unwrap(), account(0, 0, None));
    // the entry was discarded on use; ids are never reused
    assert!(!db.revert(id0));
    let id1 = db.snapshot();
    assert!(id1 > id0);
}

#[test]
fn revert_restores_storage_as_well() {
    let mut db = MemDb::new();
    db.set_storage_at(addr(1), word(0), word(1));
    let id = db.snapshot();
    db.set_storage_at(addr(1), word(0), word(2));
    db.set_storage_at(addr(2), word(5), word(9));
    assert!(db.revert(id));
    assert_eq!(db.storage(addr(1), word(0)).unwrap(), word(1));
    assert_eq!(db.storage(addr(2), word(5)).unwrap(), Word::zero());
}

#[test]
fn block_hash_defaults_to_zero_and_reads_recorded() {
    let mut db = MemDb::new();
    assert_eq!(db.block_hash(12).unwrap(), Word::zero());
    db.insert_block_hash(12, word(0xabc));
    assert_eq!(db.block_hash(12).unwrap(), word(0xabc));
}

#[test]
fn maybe_state_root_reports_unsupported() {
    let db = MemDb::new();
    assert!(db.maybe_state_root().is_none());
}
