//! The laws the backend obeys, stated and proved over the mathematical
//! model that the `Db` contracts speak of.

use vstd::prelude::*;
use crate::backend::{has_snapshot, snapshot_index, snapshot_state};
use crate::state::{basic_of, state_empty, storage_of, StateV};
use crate::types::{with_nonce, word_zero, zero_account, AccountV, Address, SlotKey};

verus! {

/// An address that was never inserted reads as the zero-value account
/// (nonce 0, balance 0, no code), and a slot that was never written reads
/// as zero.
pub proof fn lemma_absent_keys_read_zero(s: StateV, a: Address, key: SlotKey)
    requires
        !s.accounts.contains_key(a),
        !s.storage.contains_key(key),
    ensures
        basic_of(s, a) == zero_account(),
        storage_of(s, key) == word_zero(),
{
}

/// Every read of the empty state observes the zero values.
pub proof fn lemma_empty_state_reads_zero(a: Address, key: SlotKey)
    ensures
        basic_of(state_empty(), a) == zero_account(),
        storage_of(state_empty(), key) == word_zero(),
{
}

/// Round trip: after inserting `acc` under `a`, reading `a` observes
/// exactly `acc`, and every other address reads as before.
pub proof fn lemma_insert_account_round_trip(s: StateV, a: Address, acc: AccountV, b: Address)
    ensures
        basic_of((StateV { accounts: s.accounts.insert(a, acc), storage: s.storage }), a) == acc,
        b != a ==> basic_of(
            (StateV { accounts: s.accounts.insert(a, acc), storage: s.storage }),
            b,
        ) == basic_of(s, b),
{
}

/// Setting the nonce changes only the nonce: the balance and code observed
/// before are observed unchanged after, and every other address reads as
/// before.
pub proof fn lemma_set_nonce_changes_only_nonce(
    s: StateV,
    a: Address,
    prior: AccountV,
    n: u64,
    b: Address,
)
    ensures
        with_nonce(prior, n).nonce == n,
        with_nonce(prior, n).balance == prior.balance,
        with_nonce(prior, n).code == prior.code,
        b != a ==> basic_of(
            (StateV { accounts: s.accounts.insert(a, with_nonce(prior, n)), storage: s.storage }),
            b,
        ) == basic_of(s, b),
{
}

/// Nested snapshots behave as a last-in-first-out undo log: on a stack of
/// older captures, push a capture tagged `id0`, then one tagged `id1`.
/// Reverting to `id0` finds exactly the state captured with it, and the
/// stack that remains no longer holds `id1`: reverting to the older id
/// leaves the newer one stale.
pub proof fn lemma_nested_revert(
    snaps: Seq<(u64, StateV)>,
    id0: u64,
    s0: StateV,
    id1: u64,
    s1: StateV,
)
    requires
        forall|i: int| 0 <= i < snaps.len() ==> snaps[i].0 < id0,
        id0 < id1,
    ensures
        has_snapshot(snaps.push((id0, s0)).push((id1, s1)), id0),
        snapshot_index(snaps.push((id0, s0)).push((id1, s1)), id0) == snaps.len(),
        snapshot_state(snaps.push((id0, s0)).push((id1, s1)), id0) == s0,
        !has_snapshot(
            snaps.push((id0, s0)).push((id1, s1)).take(
                snapshot_index(snaps.push((id0, s0)).push((id1, s1)), id0),
            ),
            id1,
        ),
{
    let stack = snaps.push((id0, s0)).push((id1, s1));
    assert(stack[snaps.len() as int] == (id0, s0));
    assert(has_snapshot(stack, id0));
    let ci: int = snapshot_index(stack, id0);
    assert(0 <= ci < stack.len() && stack[ci].0 == id0);
    assert(forall|i: int| 0 <= i < snaps.len() ==> stack[i] == snaps[i]);
    assert(stack[stack.len() - 1] == (id1, s1));
    assert(ci == snaps.len() as int);
    let taken = stack.take(ci);
    assert(taken =~= snaps);
    if has_snapshot(taken, id1) {
        let w: int = choose|w: int| 0 <= w < taken.len() && taken[w].0 == id1;
        assert(taken[w].0 < id0);
    }
}

} // verus!
