//! The snapshot manager: a stack of captured states, each tagged with the
//! strictly increasing id issued at capture time. Reverting to an id
//! restores its captured state and discards it together with everything
//! captured later, so the stack behaves as a last-in-first-out undo log and
//! does not grow across reverts.

use vstd::prelude::*;
use crate::backend::{has_snapshot, snapshot_index, snapshot_state};
use crate::state::{StateMap, StateV};

verus! {

/// One captured state, filed under the id issued at capture time.
pub struct SnapshotEntry {
    id: u64,
    saved: StateMap,
}

/// The stack-structured undo log.
pub struct SnapshotManager {
    entries: Vec<SnapshotEntry>,
    next_id: u64,
}

impl SnapshotManager {
    /// The stack as a sequence of captured states with their ids, oldest
    /// first.
    pub closed spec fn stack(&self) -> Seq<(u64, StateV)> {
        self.entries@.map(|i: int, e: SnapshotEntry| (e.id, e.saved@))
    }

    /// The id the next capture is filed under.
    pub closed spec fn next(&self) -> u64 {
        self.next_id
    }

    /// Ids grow strictly up the stack and stay below the next id, and every
    /// captured state is well formed.
    pub closed spec fn wf(&self) -> bool {
        &&& forall|i: int, j: int|
            0 <= i < j < self.entries@.len() ==> self.entries@[i].id < self.entries@[j].id
        &&& forall|i: int|
            0 <= i < self.entries@.len() ==> (#[trigger] self.entries@[i]).id < self.next_id
                && self.entries@[i].saved.wf()
    }

    /// Ids grow strictly up the stack and stay below the next id, so no id
    /// is ever issued twice.
    pub proof fn lemma_ids_invariant(&self)
        requires
            self.wf(),
        ensures
            forall|i: int, j: int|
                0 <= i < j < self.stack().len() ==> self.stack()[i].0 < self.stack()[j].0,
            forall|i: int|
                0 <= i < self.stack().len() ==> (#[trigger] self.stack()[i]).0 < self.next(),
    {
        assert(forall|i: int|
            0 <= i < self.stack().len() ==> self.stack()[i].0 == (
            #[trigger] self.entries@[i]).id);
    }

    /// An empty history.
    pub fn new() -> (r: SnapshotManager)
        ensures
            r.wf(),
            r.stack() == Seq::<(u64, StateV)>::empty(),
            r.next() == 0,
    {
        let r = SnapshotManager { entries: Vec::new(), next_id: 0 };
        proof {
            assert(r.stack() =~= Seq::<(u64, StateV)>::empty());
        }
        r
    }

    /// Captures a copy of `current` and returns the id it is filed under.
    pub fn capture(&mut self, current: &StateMap) -> (id: u64)
        requires
            old(self).wf(),
            current.wf(),
            old(self).next() < u64::MAX,
        ensures
            final(self).wf(),
            id == old(self).next(),
            final(self).next() == id + 1,
            final(self).stack() == old(self).stack().push((id, current@)),
    {
        let id = self.next_id;
        let saved = current.dup();
        self.entries.push(SnapshotEntry { id, saved });
        self.next_id = id + 1;
        proof {
            assert(self.stack() =~= old(self).stack().push((id, current@)));
        }
        id
    }

    /// Reverts `current` to the state filed under `id`, discarding that
    /// entry and every later one; when `id` is not on the stack, reports
    /// failure and changes nothing.
    pub fn revert_onto(&mut self, id: u64, current: &mut StateMap) -> (ok: bool)
        requires
            old(self).wf(),
            old(current).wf(),
        ensures
            final(self).wf(),
            final(current).wf(),
            final(self).next() == old(self).next(),
            ok == has_snapshot(old(self).stack(), id),
            !ok ==> *final(self) == *old(self) && *final(current) == *old(current),
            ok ==> final(current)@ == snapshot_state(old(self).stack(), id)
                && final(self).stack() == old(self).stack().take(
                snapshot_index(old(self).stack(), id),
            ),
    {
        let mut i: usize = 0;
        let mut found = false;
        while i < self.entries.len() && !found
            invariant
                i <= self.entries@.len(),
                !found ==> forall|j: int| 0 <= j < i ==> self.entries@[j].id != id,
                found ==> i < self.entries@.len() && self.entries@[i as int].id == id,
            decreases self.entries@.len() - i + (if found { 0int } else { 1int }),
        {
            if self.entries[i].id == id {
                found = true;
            } else {
                i = i + 1;
            }
        }
        if !found {
            proof {
                assert(forall|j: int| 0 <= j < self.stack().len() ==> self.stack()[j].0 != id);
            }
            return false;
        }
        proof {
            assert(self.stack()[i as int].0 == id);
            assert(has_snapshot(self.stack(), id));
            assert forall|j: int|
                0 <= j < self.stack().len() && self.stack()[j].0 == id implies j == i as int by {
                assert(self.entries@[j].id == id);
                if j < i as int {
                    assert(self.entries@[j].id < self.entries@[i as int].id);
                } else if j > i as int {
                    assert(self.entries@[i as int].id < self.entries@[j].id);
                }
            }
            let ci: int = snapshot_index(self.stack(), id);
            assert(0 <= ci < self.stack().len() && self.stack()[ci].0 == id);
            assert(ci == i as int);
        }
        let ghost s0 = self.entries@;
        proof {
            assert(self.entries@ =~= s0.take(self.entries@.len() as int));
        }
        while self.entries.len() > i + 1
            invariant
                i < self.entries@.len(),
                self.entries@.len() <= s0.len(),
                self.entries@ == s0.take(self.entries@.len() as int),
                self.next_id == old(self).next_id,
            decreases self.entries@.len(),
        {
            let _dropped = self.entries.pop();
            proof {
                assert(self.entries@ =~= s0.take(self.entries@.len() as int));
            }
        }
        let entry = match self.entries.pop() {
            Some(e) => e,
            None => vstd::pervasive::unreached(),
        };
        *current = entry.saved;
        proof {
            assert(self.entries@ =~= s0.take(i as int));
            assert(forall|j: int| 0 <= j < self.entries@.len() ==> self.entries@[j] == s0[j]);
            assert(self.stack() =~= old(self).stack().take(i as int));
            assert(current@ == old(self).stack()[i as int].1);
        }
        true
    }
}

} // verus!
