//! A verified association map: a list of entries with pairwise-distinct keys,
//! viewed as a `Map` from keys to the values' mathematical views.

use vstd::prelude::*;
use crate::types::{AccountInfo, Address, SlotKey, Word};

verus! {

/// A key that executable code can compare exactly.
pub trait EqKey: Sized + Copy {
    fn eq_key(&self, other: &Self) -> (b: bool)
        ensures
            b == (*self == *other),
    ;
}

impl EqKey for u64 {
    fn eq_key(&self, other: &Self) -> (b: bool)
        ensures
            b == (*self == *other),
    {
        *self == *other
    }
}

impl EqKey for Address {
    fn eq_key(&self, other: &Self) -> (b: bool)
        ensures
            b == (*self == *other),
    {
        *self == *other
    }
}

impl EqKey for SlotKey {
    fn eq_key(&self, other: &Self) -> (b: bool)
        ensures
            b == (*self == *other),
    {
        *self == *other
    }
}

/// A value with a mathematical view, which executable code can copy and
/// compare exactly.
pub trait Value: View + Sized {
    fn dup(&self) -> (r: Self)
        ensures
            r@ == self@,
    ;

    fn eq_value(&self, other: &Self) -> (b: bool)
        ensures
            b == (self@ == other@),
    ;
}

impl Value for Word {
    fn dup(&self) -> (r: Self)
        ensures
            r@ == self@,
    {
        *self
    }

    fn eq_value(&self, other: &Self) -> (b: bool)
        ensures
            b == (self@ == other@),
    {
        *self == *other
    }
}

impl Value for AccountInfo {
    fn dup(&self) -> (r: Self)
        ensures
            r@ == self@,
    {
        AccountInfo::dup(self)
    }

    fn eq_value(&self, other: &Self) -> (b: bool)
        ensures
            b == (self@ == other@),
    {
        AccountInfo::eq_value(self, other)
    }
}

/// Whether the keys of the entry list are pairwise distinct.
pub open spec fn unique_keys<K, V>(s: Seq<(K, V)>) -> bool {
    forall|i: int, j: int| 0 <= i < j < s.len() ==> s[i].0 != s[j].0
}

/// The map that an entry list denotes; a later entry would win, though a
/// well-formed list never repeats a key.
pub open spec fn entries_map<K, V: View>(s: Seq<(K, V)>) -> Map<K, <V as View>::V>
    decreases s.len(),
{
    if s.len() == 0 {
        Map::empty()
    } else {
        entries_map(s.drop_last()).insert(s.last().0, s.last().1@)
    }
}

proof fn lemma_entries_map_contains<K, V: View>(s: Seq<(K, V)>, k: K)
    ensures
        entries_map(s).contains_key(k) <==> exists|i: int| 0 <= i < s.len() && s[i].0 == k,
    decreases s.len(),
{
    if s.len() == 0 {
    } else {
        lemma_entries_map_contains(s.drop_last(), k);
        if s.last().0 == k {
            assert(s[s.len() - 1].0 == k);
        } else {
            if entries_map(s).contains_key(k) {
                let i: int = choose|i: int| 0 <= i < s.drop_last().len() && s.drop_last()[i].0 == k;
                assert(s[i].0 == k);
            }
            if exists|i: int| 0 <= i < s.len() && s[i].0 == k {
                let i: int = choose|i: int| 0 <= i < s.len() && s[i].0 == k;
                assert(i != s.len() - 1);
                assert(s.drop_last()[i].0 == k);
            }
        }
    }
}

proof fn lemma_entries_map_index<K, V: View>(s: Seq<(K, V)>, i: int)
    requires
        unique_keys(s),
        0 <= i < s.len(),
    ensures
        entries_map(s).contains_key(s[i].0),
        entries_map(s)[s[i].0] == s[i].1@,
    decreases s.len(),
{
    if i < s.len() - 1 {
        assert(unique_keys(s.drop_last())) by {
            assert(forall|x: int, y: int|
                0 <= x < y < s.drop_last().len() ==> s.drop_last()[x].0 != s.drop_last()[y].0);
        }
        lemma_entries_map_index(s.drop_last(), i);
        assert(s.drop_last()[i] == s[i]);
        assert(s[i].0 != s.last().0);
    }
}

proof fn lemma_entries_map_remove<K, V: View>(s: Seq<(K, V)>, i: int)
    requires
        unique_keys(s),
        0 <= i < s.len(),
    ensures
        entries_map(s.remove(i)) == entries_map(s).remove(s[i].0),
    decreases s.len(),
{
    let k = s[i].0;
    if i == s.len() - 1 {
        assert(s.remove(i) =~= s.drop_last());
        lemma_entries_map_contains(s.drop_last(), k);
        assert(forall|j: int| 0 <= j < s.drop_last().len() ==> s.drop_last()[j].0 != k);
        assert(entries_map(s).remove(k) =~= entries_map(s.drop_last()));
    } else {
        assert(unique_keys(s.drop_last())) by {
            assert(forall|x: int, y: int|
                0 <= x < y < s.drop_last().len() ==> s.drop_last()[x].0 != s.drop_last()[y].0);
        }
        lemma_entries_map_remove(s.drop_last(), i);
        assert(s.drop_last()[i] == s[i]);
        assert(s.remove(i).drop_last() =~= s.drop_last().remove(i));
        assert(s.remove(i).last() == s.last());
        assert(entries_map(s.remove(i))
            == entries_map(s.drop_last().remove(i)).insert(s.last().0, s.last().1@));
        assert(s.last().0 != k);
        assert(entries_map(s.drop_last()).remove(k).insert(s.last().0, s.last().1@)
            =~= entries_map(s.drop_last()).insert(s.last().0, s.last().1@).remove(k));
    }
}

proof fn lemma_entries_map_congruence<K, V: View>(s1: Seq<(K, V)>, s2: Seq<(K, V)>)
    requires
        s1.len() == s2.len(),
        forall|i: int| 0 <= i < s1.len() ==> s2[i].0 == s1[i].0 && s2[i].1@ == s1[i].1@,
    ensures
        entries_map(s1) == entries_map(s2),
    decreases s1.len(),
{
    if s1.len() > 0 {
        assert(forall|i: int| 0 <= i < s1.drop_last().len()
            ==> s2.drop_last()[i].0 == s1.drop_last()[i].0
                && s2.drop_last()[i].1@ == s1.drop_last()[i].1@);
        lemma_entries_map_congruence(s1.drop_last(), s2.drop_last());
        assert(s2.last().0 == s1.last().0 && s2.last().1@ == s1.last().1@);
    }
}

/// An association map with exact contracts over its `Map` view.
pub struct AList<K, V> {
    entries: Vec<(K, V)>,
}

impl<K, V: View> View for AList<K, V> {
    type V = Map<K, <V as View>::V>;

    closed spec fn view(&self) -> Map<K, <V as View>::V> {
        entries_map(self.entries@)
    }
}

impl<K: EqKey, V: Value> AList<K, V> {
    /// Whether the entry list repeats no key.
    pub closed spec fn wf(&self) -> bool {
        unique_keys(self.entries@)
    }

    /// An empty map.
    pub fn new() -> (r: Self)
        ensures
            r.wf(),
            r@ == Map::<K, <V as View>::V>::empty(),
    {
        AList { entries: Vec::new() }
    }

    fn find(&self, k: &K) -> (r: Option<usize>)
        requires
            self.wf(),
        ensures
            match r {
                Some(i) => 0 <= i < self.entries@.len() && self.entries@[i as int].0 == *k,
                None => !self@.contains_key(*k),
            },
    {
        let mut i: usize = 0;
        while i < self.entries.len()
            invariant
                i <= self.entries.len(),
                forall|j: int| 0 <= j < i ==> self.entries@[j].0 != *k,
            decreases self.entries.len() - i,
        {
            let p = &self.entries[i];
            if p.0.eq_key(k) {
                return Some(i);
            }
            i = i + 1;
        }
        proof {
            lemma_entries_map_contains(self.entries@, *k);
        }
        None
    }

    /// The value stored under `k`, if an entry for `k` exists.
    pub fn get(&self, k: &K) -> (r: Option<&V>)
        requires
            self.wf(),
        ensures
            match r {
                Some(v) => self@.contains_key(*k) && v@ == self@[*k],
                None => !self@.contains_key(*k),
            },
    {
        match self.find(k) {
            Some(i) => {
                proof {
                    lemma_entries_map_index(self.entries@, i as int);
                }
                Some(&self.entries[i].1)
            }
            None => None,
        }
    }

    /// Stores `v` under `k`, replacing any earlier entry for `k`.
    pub fn set(&mut self, k: K, v: V)
        requires
            old(self).wf(),
        ensures
            final(self).wf(),
            final(self)@ == old(self)@.insert(k, v@),
    {
        let ghost s0 = self.entries@;
        match self.find(&k) {
            Some(i) => {
                proof {
                    lemma_entries_map_remove(s0, i as int);
                    assert(forall|x: int, y: int|
                        0 <= x < y < s0.remove(i as int).len()
                            ==> s0.remove(i as int)[x].0 != s0.remove(i as int)[y].0);
                    assert(forall|j: int| 0 <= j < s0.remove(i as int).len()
                        ==> s0.remove(i as int)[j].0 != k);
                }
                let _removed = self.entries.remove(i);
                self.entries.push((k, v));
                proof {
                    let s1 = s0.remove(i as int);
                    assert(self.entries@ == s1.push((k, v)));
                    assert(self.entries@.drop_last() =~= s1);
                    assert(entries_map(self.entries@) == entries_map(s1).insert(k, v@));
                    assert(entries_map(s0).remove(k).insert(k, v@) =~= entries_map(s0).insert(k, v@));
                    assert(forall|x: int, y: int|
                        0 <= x < y < self.entries@.len()
                            ==> self.entries@[x].0 != self.entries@[y].0);
                }
            }
            None => {
                proof {
                    lemma_entries_map_contains(s0, k);
                }
                self.entries.push((k, v));
                proof {
                    assert(self.entries@.drop_last() =~= s0);
                    assert(forall|x: int, y: int|
                        0 <= x < y < self.entries@.len()
                            ==> self.entries@[x].0 != self.entries@[y].0);
                }
            }
        }
    }

    /// An exact copy of the map.
    pub fn dup(&self) -> (r: Self)
        requires
            self.wf(),
        ensures
            r.wf(),
            r@ == self@,
    {
        let mut out: Vec<(K, V)> = Vec::new();
        let mut i: usize = 0;
        while i < self.entries.len()
            invariant
                i <= self.entries.len(),
                out@.len() == i,
                forall|j: int| 0 <= j < i
                    ==> out@[j].0 == self.entries@[j].0 && out@[j].1@ == self.entries@[j].1@,
            decreases self.entries.len() - i,
        {
            let p = &self.entries[i];
            out.push((p.0, p.1.dup()));
            i = i + 1;
        }
        proof {
            lemma_entries_map_congruence(self.entries@, out@);
            assert(unique_keys(self.entries@));
            assert(forall|x: int, y: int|
                0 <= x < y < out@.len() ==> out@[x].0 != out@[y].0);
        }
        AList { entries: out }
    }

    /// Whether this map and `other` hold exactly the same entries.
    pub fn map_eq(&self, other: &Self) -> (b: bool)
        requires
            self.wf(),
            other.wf(),
        ensures
            b == (self@ == other@),
    {
        let mut i: usize = 0;
        while i < self.entries.len()
            invariant
                self.wf(),
                other.wf(),
                i <= self.entries.len(),
                forall|j: int| 0 <= j < i
                    ==> other@.contains_key(#[trigger] self.entries@[j].0)
                        && other@[self.entries@[j].0] == self.entries@[j].1@,
            decreases self.entries.len() - i,
        {
            let p = &self.entries[i];
            proof {
                lemma_entries_map_index(self.entries@, i as int);
            }
            match other.get(&p.0) {
                Some(v) => {
                    if !p.1.eq_value(v) {
                        proof {
                            assert(self@[p.0] != other@[p.0]);
                        }
                        return false;
                    }
                }
                None => {
                    proof {
                        assert(self@.contains_key(p.0) && !other@.contains_key(p.0));
                    }
                    return false;
                }
            }
            i = i + 1;
        }
        let mut j: usize = 0;
        while j < other.entries.len()
            invariant
                self.wf(),
                other.wf(),
                j <= other.entries.len(),
                forall|x: int| 0 <= x < self.entries@.len()
                    ==> other@.contains_key(#[trigger] self.entries@[x].0)
                        && other@[self.entries@[x].0] == self.entries@[x].1@,
                forall|y: int| 0 <= y < j ==> self@.contains_key(#[trigger] other.entries@[y].0),
            decreases other.entries.len() - j,
        {
            let q = &other.entries[j];
            proof {
                lemma_entries_map_index(other.entries@, j as int);
            }
            match self.get(&q.0) {
                Some(_) => {}
                None => {
                    proof {
                        assert(other@.contains_key(q.0) && !self@.contains_key(q.0));
                    }
                    return false;
                }
            }
            j = j + 1;
        }
        proof {
            assert forall|k: K| #[trigger] self@.dom().contains(k)
                implies other@.dom().contains(k) && other@[k] == self@[k] by {
                assert(self@.contains_key(k));
                lemma_entries_map_contains(self.entries@, k);
                let x: int = choose|x: int| 0 <= x < self.entries@.len() && self.entries@[x].0 == k;
                lemma_entries_map_index(self.entries@, x);
            }
            assert forall|k: K| #[trigger] other@.dom().contains(k)
                implies self@.dom().contains(k) by {
                assert(other@.contains_key(k));
                lemma_entries_map_contains(other.entries@, k);
                let y: int = choose|y: int| 0 <= y < other.entries@.len() && other.entries@[y].0 == k;
                lemma_entries_map_index(other.entries@, y);
            }
            assert(self@.dom() =~= other@.dom());
            assert(self@ =~= other@);
        }
        true
    }
}

} // verus!
