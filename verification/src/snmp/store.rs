//! The agent's OID store: integer values keyed by OID, and the set of OIDs
//! that the control surface drives. Both keep their keys distinct.

use crate::snmp::oid::{oid_less, oid_lt, oid_lt_irreflexive, oid_lt_transitive};
use vstd::prelude::*;

verus! {

/// Whether two OIDs have the same components.
pub fn oid_equal(a: &Vec<u32>, b: &Vec<u32>) -> (r: bool)
    ensures
        r == (a@ == b@),
{
    if a.len() != b.len() {
        return false;
    }
    let mut i: usize = 0;
    while i < a.len()
        invariant
            i <= a.len(),
            a.len() == b.len(),
            forall|j: int| 0 <= j < i ==> a@[j] == b@[j],
        decreases a.len() - i,
    {
        if a[i] != b[i] {
            return false;
        }
        i = i + 1;
    }
    proof {
        assert(a@ =~= b@);
    }
    true
}

/// A copy of an OID.
pub fn copy_oid(a: &Vec<u32>) -> (r: Vec<u32>)
    ensures
        r@ == a@,
{
    let mut r: Vec<u32> = Vec::new();
    let mut i: usize = 0;
    while i < a.len()
        invariant
            i <= a.len(),
            r@ =~= a@.take(i as int),
        decreases a.len() - i,
    {
        r.push(a[i]);
        i = i + 1;
    }
    proof {
        assert(a@.take(a@.len() as int) =~= a@);
    }
    r
}

/// Integer values keyed by OID.
pub struct OidValues {
    entries: Vec<(Vec<u32>, i64)>,
}

impl OidValues {
    #[verifier::type_invariant]
    spec fn keys_distinct(self) -> bool {
        forall|i: int, j: int|
            0 <= i < j < self.entries@.len() ==> (#[trigger] self.entries@[i]).0@ != (
            #[trigger] self.entries@[j]).0@
    }

    spec fn has_key_at(self, k: Seq<u32>, i: int) -> bool {
        0 <= i < self.entries@.len() && self.entries@[i].0@ == k
    }

    /// The values, as a map from OID components.
    pub closed spec fn view(self) -> Map<Seq<u32>, i64> {
        Map::new(
            |k: Seq<u32>| exists|i: int| #[trigger] self.has_key_at(k, i),
            |k: Seq<u32>| self.entries@[choose|i: int| #[trigger] self.has_key_at(k, i)].1,
        )
    }

    proof fn lemma_view_at(self, i: int)
        requires
            self.keys_distinct(),
            0 <= i < self.entries@.len(),
        ensures
            self.view().contains_key(self.entries@[i].0@),
            self.view()[self.entries@[i].0@] == self.entries@[i].1,
    {
        let k = self.entries@[i].0@;
        assert(self.has_key_at(k, i));
        let j = choose|j: int| #[trigger] self.has_key_at(k, j);
        assert(j == i) by {
            if j < i {
                assert(self.entries@[j].0@ != self.entries@[i].0@);
            } else if j > i {
                assert(self.entries@[i].0@ != self.entries@[j].0@);
            }
        }
    }

    /// An empty store.
    pub fn new() -> (s: Self)
        ensures
            s.view() == Map::<Seq<u32>, i64>::empty(),
    {
        let s = OidValues { entries: Vec::new() };
        proof {
            assert(s.view() =~= Map::<Seq<u32>, i64>::empty());
        }
        s
    }

    fn find(&self, oid: &Vec<u32>) -> (r: Option<usize>)
        ensures
            r matches Some(i) ==> i < self.entries@.len() && self.entries@[i as int].0@ == oid@,
            r is None ==> forall|i: int|
                0 <= i < self.entries@.len() ==> (#[trigger] self.entries@[i]).0@ != oid@,
    {
        let mut i: usize = 0;
        while i < self.entries.len()
            invariant
                i <= self.entries@.len(),
                forall|j: int| 0 <= j < i ==> (#[trigger] self.entries@[j]).0@ != oid@,
            decreases self.entries@.len() - i,
        {
            if oid_equal(&self.entries[i].0, oid) {
                return Some(i);
            }
            i = i + 1;
        }
        None
    }

    /// The value stored for `oid`.
    pub fn get(&self, oid: &Vec<u32>) -> (r: Option<i64>)
        ensures
            r == (if self.view().contains_key(oid@) {
                Some(self.view()[oid@])
            } else {
                None
            }),
    {
        proof {
            use_type_invariant(self);
        }
        match self.find(oid) {
            Some(i) => {
                proof {
                    self.lemma_view_at(i as int);
                }
                Some(self.entries[i].1)
            },
            None => {
                proof {
                    if self.view().contains_key(oid@) {
                        let j = choose|j: int| #[trigger] self.has_key_at(oid@, j);
                        assert(self.entries@[j].0@ != oid@);
                    }
                }
                None
            },
        }
    }

    /// Whether the store holds a value for `oid`.
    pub fn contains_key(&self, oid: &Vec<u32>) -> (r: bool)
        ensures
            r == self.view().contains_key(oid@),
    {
        self.get(oid).is_some()
    }

    /// Store `value` for `oid`, replacing any earlier value.
    pub fn insert(&mut self, oid: Vec<u32>, value: i64)
        ensures
            final(self).view() == old(self).view().insert(oid@, value),
    {
        proof {
            use_type_invariant(&*self);
        }
        let ghost before = self.view();
        let ghost old_entries = self.entries@;
        match self.find(&oid) {
            Some(i) => {
                let ghost k = oid@;
                let mut entries: Vec<(Vec<u32>, i64)> = Vec::new();
                std::mem::swap(&mut entries, &mut self.entries);
                entries.set(i, (oid, value));
                proof {
                    assert forall|a: int, b: int|
                        0 <= a < b < entries@.len() implies (#[trigger] entries@[a]).0@
                        != (#[trigger] entries@[b]).0@ by {
                        assert(old_entries[a].0@ != old_entries[b].0@);
                    }
                }
                self.entries = entries;
                proof {
                    assert forall|a: int, b: int|
                        0 <= a < b < self.entries@.len() implies (#[trigger] self.entries@[a]).0@
                        != (#[trigger] self.entries@[b]).0@ by {
                        assert(old_entries[a].0@ != old_entries[b].0@);
                    }
                    assert(self.keys_distinct());
                    self.lemma_view_at(i as int);
                    assert forall|key: Seq<u32>| key != k implies (#[trigger] self.view().dom().contains(key)
                        == before.dom().contains(key)) && (before.contains_key(key)
                        ==> self.view()[key] == before[key]) by {
                        if before.contains_key(key) {
                            let j = choose|j: int| #[trigger] old(self).has_key_at(key, j);
                            assert(self.has_key_at(key, j));
                            old(self).lemma_view_at(j);
                            self.lemma_view_at(j);
                        }
                        if self.view().contains_key(key) {
                            let j = choose|j: int| #[trigger] self.has_key_at(key, j);
                            assert(old(self).has_key_at(key, j));
                        }
                    }
                    assert(self.view().contains_key(k));
                    assert(self.view()[k] == value);
                    assert(self.view().dom() =~= before.insert(k, value).dom());
                    assert(self.view() =~= before.insert(k, value));
                }
            },
            None => {
                let ghost k = oid@;
                let mut entries: Vec<(Vec<u32>, i64)> = Vec::new();
                std::mem::swap(&mut entries, &mut self.entries);
                entries.push((oid, value));
                proof {
                    assert forall|a: int, b: int|
                        0 <= a < b < entries@.len() implies (#[trigger] entries@[a]).0@
                        != (#[trigger] entries@[b]).0@ by {
                        if b < old_entries.len() {
                            assert(old_entries[a].0@ != old_entries[b].0@);
                        } else {
                            assert(old_entries[a].0@ != k);
                        }
                    }
                }
                self.entries = entries;
                proof {
                    assert(self.keys_distinct());
                    let n = old_entries.len() as int;
                    self.lemma_view_at(n);
                    assert forall|key: Seq<u32>| key != k implies (#[trigger] self.view().dom().contains(key)
                        == before.dom().contains(key)) && (before.contains_key(key)
                        ==> self.view()[key] == before[key]) by {
                        if before.contains_key(key) {
                            let j = choose|j: int| #[trigger] old(self).has_key_at(key, j);
                            assert(self.has_key_at(key, j));
                            old(self).lemma_view_at(j);
                            self.lemma_view_at(j);
                        }
                        if self.view().contains_key(key) {
                            let j = choose|j: int| #[trigger] self.has_key_at(key, j);
                            assert(old(self).has_key_at(key, j));
                        }
                    }
                    assert(self.view().contains_key(k));
                    assert(self.view()[k] == value);
                    assert(self.view().dom() =~= before.insert(k, value).dom());
                    assert(self.view() =~= before.insert(k, value));
                }
            },
        }
    }

    /// The store holds finitely many OIDs.
    pub proof fn view_is_finite(self)
        ensures
            self.view().dom().finite(),
    {
        let keys = self.entries@.map_values(|e: (Vec<u32>, i64)| e.0@);
        assert(self.view().dom() =~= keys.to_set()) by {
            assert forall|k: Seq<u32>| self.view().dom().contains(k) implies keys.to_set().contains(k) by {
                let j = choose|j: int| #[trigger] self.has_key_at(k, j);
                assert(keys[j] == k);
            }
            assert forall|k: Seq<u32>| keys.to_set().contains(k) implies self.view().dom().contains(k) by {
                let j = choose|j: int| 0 <= j < keys.len() && keys[j] == k;
                assert(self.has_key_at(k, j));
            }
        }
        vstd::seq_lib::seq_to_set_is_finite(keys);
    }

    /// Number of OIDs in the store.
    pub fn len(&self) -> (n: usize)
        ensures
            n == self.view().len(),
            self.view().dom().finite(),
    {
        proof {
            use_type_invariant(self);
            self.lemma_len();
        }
        self.entries.len()
    }

    /// Whether the store is empty.
    pub fn is_empty(&self) -> (r: bool)
        ensures
            r == (self.view().len() == 0),
    {
        self.len() == 0
    }

    proof fn lemma_len(self)
        requires
            self.keys_distinct(),
        ensures
            self.view().dom().finite(),
            self.view().len() == self.entries@.len(),
    {
        let keys = self.entries@.map_values(|e: (Vec<u32>, i64)| e.0@);
        assert(keys.no_duplicates()) by {
            assert forall|i: int, j: int| 0 <= i < keys.len() && 0 <= j < keys.len() && i != j
                implies keys[i] != keys[j] by {
                if i < j {
                    assert(self.entries@[i].0@ != self.entries@[j].0@);
                } else {
                    assert(self.entries@[j].0@ != self.entries@[i].0@);
                }
            }
        }
        assert(self.view().dom() =~= keys.to_set()) by {
            assert forall|k: Seq<u32>| self.view().dom().contains(k) implies keys.to_set().contains(k) by {
                let j = choose|j: int| #[trigger] self.has_key_at(k, j);
                assert(keys[j] == k);
            }
            assert forall|k: Seq<u32>| keys.to_set().contains(k) implies self.view().dom().contains(k) by {
                let j = choose|j: int| 0 <= j < keys.len() && keys[j] == k;
                assert(self.has_key_at(k, j));
            }
        }
        keys.unique_seq_to_set();
    }

    /// The entry with the least OID strictly after `oid`, if any.
    pub fn next_after(&self, oid: &Vec<u32>) -> (r: Option<(Vec<u32>, i64)>)
        ensures
            r matches Some(e) ==> {
                &&& self.view().contains_key(e.0@)
                &&& self.view()[e.0@] == e.1
                &&& oid_lt(oid@, e.0@)
                &&& forall|k: Seq<u32>|
                    #[trigger] self.view().contains_key(k) && oid_lt(oid@, k) ==> !oid_lt(k, e.0@)
            },
            r is None ==> forall|k: Seq<u32>| #[trigger] self.view().contains_key(k) ==> !oid_lt(oid@, k),
    {
        proof {
            use_type_invariant(self);
        }
        let mut best: Option<usize> = None;
        let mut i: usize = 0;
        while i < self.entries.len()
            invariant
                i <= self.entries@.len(),
                self.keys_distinct(),
                best matches Some(b) ==> b < i && oid_lt(oid@, self.entries@[b as int].0@),
                forall|j: int|
                    0 <= j < i && oid_lt(oid@, (#[trigger] self.entries@[j]).0@) ==> (best matches Some(
                        b,
                    ) && !oid_lt(self.entries@[j].0@, self.entries@[b as int].0@)),
            decreases self.entries@.len() - i,
        {
            if oid_less(oid, &self.entries[i].0) {
                let better = match best {
                    None => true,
                    Some(b) => oid_less(&self.entries[i].0, &self.entries[b].0),
                };
                if better {
                    proof {
                        assert forall|j: int|
                            0 <= j < i + 1 && oid_lt(oid@, (#[trigger] self.entries@[j]).0@) implies !oid_lt(
                            self.entries@[j].0@,
                            self.entries@[i as int].0@,
                        ) by {
                            if j == i {
                                oid_lt_irreflexive(self.entries@[j].0@);
                            } else {
                                let b = best->0;
                                if oid_lt(self.entries@[j].0@, self.entries@[i as int].0@) {
                                    oid_lt_transitive(
                                        self.entries@[j].0@,
                                        self.entries@[i as int].0@,
                                        self.entries@[b as int].0@,
                                    );
                                }
                            }
                        }
                    }
                    best = Some(i);
                } else {
                    proof {
                        let b = best->0;
                        if oid_lt(self.entries@[i as int].0@, self.entries@[b as int].0@) {
                            assert(false);
                        }
                    }
                }
            }
            i = i + 1;
        }
        match best {
            Some(b) => {
                proof {
                    self.lemma_view_at(b as int);
                    assert forall|k: Seq<u32>| #[trigger]
                        self.view().contains_key(k) && oid_lt(oid@, k) implies !oid_lt(
                        k,
                        self.entries@[b as int].0@,
                    ) by {
                        let j = choose|j: int| #[trigger] self.has_key_at(k, j);
                        assert(oid_lt(oid@, self.entries@[j].0@));
                    }
                }
                Some((copy_oid(&self.entries[b].0), self.entries[b].1))
            },
            None => {
                proof {
                    assert forall|k: Seq<u32>| #[trigger] self.view().contains_key(k) implies !oid_lt(
                        oid@,
                        k,
                    ) by {
                        let j = choose|j: int| #[trigger] self.has_key_at(k, j);
                        assert(!oid_lt(oid@, self.entries@[j].0@));
                    }
                }
                None
            },
        }
    }
}

/// A set of OIDs.
pub struct OidSet {
    items: Vec<Vec<u32>>,
}

impl OidSet {
    #[verifier::type_invariant]
    spec fn items_distinct(self) -> bool {
        forall|i: int, j: int|
            0 <= i < j < self.items@.len() ==> (#[trigger] self.items@[i])@ != (
            #[trigger] self.items@[j])@
    }

    spec fn has_at(self, k: Seq<u32>, i: int) -> bool {
        0 <= i < self.items@.len() && self.items@[i]@ == k
    }

    /// The OIDs, as a set of component sequences.
    pub closed spec fn view(self) -> Set<Seq<u32>> {
        Set::new(|k: Seq<u32>| exists|i: int| #[trigger] self.has_at(k, i))
    }

    /// An empty set.
    pub fn new() -> (s: Self)
        ensures
            s.view() == Set::<Seq<u32>>::empty(),
    {
        let s = OidSet { items: Vec::new() };
        proof {
            assert(s.view() =~= Set::<Seq<u32>>::empty());
        }
        s
    }

    /// Whether `oid` is in the set.
    pub fn contains(&self, oid: &Vec<u32>) -> (r: bool)
        ensures
            r == self.view().contains(oid@),
    {
        let mut i: usize = 0;
        while i < self.items.len()
            invariant
                i <= self.items@.len(),
                forall|j: int| 0 <= j < i ==> (#[trigger] self.items@[j])@ != oid@,
            decreases self.items@.len() - i,
        {
            if oid_equal(&self.items[i], oid) {
                proof {
                    assert(self.has_at(oid@, i as int));
                }
                return true;
            }
            i = i + 1;
        }
        proof {
            if self.view().contains(oid@) {
                let j = choose|j: int| #[trigger] self.has_at(oid@, j);
                assert(self.items@[j]@ != oid@);
            }
        }
        false
    }

    /// Add `oid` to the set.
    pub fn insert(&mut self, oid: Vec<u32>)
        ensures
            final(self).view() == old(self).view().insert(oid@),
    {
        proof {
            use_type_invariant(&*self);
        }
        if self.contains(&oid) {
            proof {
                assert(self.view() =~= old(self).view().insert(oid@));
            }
            return;
        }
        let ghost old_items = self.items@;
        let ghost k = oid@;
        let mut items: Vec<Vec<u32>> = Vec::new();
        std::mem::swap(&mut items, &mut self.items);
        items.push(oid);
        proof {
            assert forall|a: int, b: int|
                0 <= a < b < items@.len() implies (#[trigger] items@[a])@ != (#[trigger] items@[b])@ by {
                if b < old_items.len() {
                    assert(old_items[a]@ != old_items[b]@);
                } else {
                    assert(!old(self).has_at(k, a));
                }
            }
        }
        self.items = items;
        proof {
            assert(self.has_at(k, old_items.len() as int));
            assert forall|key: Seq<u32>| #[trigger] self.view().contains(key) == old(self).view().insert(
                k,
            ).contains(key) by {
                if self.view().contains(key) && key != k {
                    let j = choose|j: int| #[trigger] self.has_at(key, j);
                    assert(old(self).has_at(key, j));
                }
                if old(self).view().contains(key) {
                    let j = choose|j: int| #[trigger] old(self).has_at(key, j);
                    assert(self.has_at(key, j));
                }
            }
            assert(self.view() =~= old(self).view().insert(k));
        }
    }

    /// Number of OIDs in the set.
    pub fn len(&self) -> (n: usize)
        ensures
            n == self.view().len(),
            self.view().finite(),
    {
        proof {
            use_type_invariant(self);
            let keys = self.items@.map_values(|e: Vec<u32>| e@);
            assert(keys.no_duplicates()) by {
                assert forall|i: int, j: int| 0 <= i < keys.len() && 0 <= j < keys.len() && i != j
                    implies keys[i] != keys[j] by {
                    if i < j {
                        assert(self.items@[i]@ != self.items@[j]@);
                    } else {
                        assert(self.items@[j]@ != self.items@[i]@);
                    }
                }
            }
            assert(self.view() =~= keys.to_set()) by {
                assert forall|k: Seq<u32>| self.view().contains(k) implies keys.to_set().contains(k) by {
                    let j = choose|j: int| #[trigger] self.has_at(k, j);
                    assert(keys[j] == k);
                }
                assert forall|k: Seq<u32>| keys.to_set().contains(k) implies self.view().contains(k) by {
                    let j = choose|j: int| 0 <= j < keys.len() && keys[j] == k;
                    assert(self.has_at(k, j));
                }
            }
            keys.unique_seq_to_set();
        }
        self.items.len()
    }

    /// Whether the set is empty.
    pub fn is_empty(&self) -> (r: bool)
        ensures
            r == (self.view().len() == 0),
    {
        self.len() == 0
    }
}

} // verus!
