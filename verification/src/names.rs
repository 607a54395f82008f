//! Finite maps from names to values, kept as a list of entries in which
//! no name occurs twice.

use vstd::prelude::*;
use crate::text::same_text;

verus! {

/// A map from names to values.
///
/// Entries keep the order in which their names were first inserted;
/// inserting a name that is already present replaces its value in place.
///
/// The library keeps its name tables here rather than in a
/// `HashMap<String, _>`: vstd's specification of `HashMap` holds only for key
/// types that obey its key model (`obeys_key_model`), which vstd establishes
/// for integer and `bool` keys and not for `String`.
#[derive(Debug)]
pub struct NameMap<V: View> {
    entries: Vec<(String, V)>,
}

impl<V: View> NameMap<V> {
    /// No name occurs in two entries.
    #[verifier::type_invariant]
    closed spec fn names_distinct(self) -> bool {
        forall|i: int, j: int|
            0 <= i < self.entries@.len() && 0 <= j < self.entries@.len() && i != j
                ==> #[trigger] self.entries@[i].0@ != #[trigger] self.entries@[j].0@
    }

    /// The number of entries.
    pub closed spec fn size(&self) -> nat {
        self.entries@.len()
    }

    /// The name of the entry at position `i`.
    pub closed spec fn key_at(&self, i: int) -> Seq<char> {
        self.entries@[i].0@
    }

    /// Whether some entry carries the name `k`.
    pub closed spec fn has(&self, k: Seq<char>) -> bool {
        exists|i: int| 0 <= i < self.entries@.len() && self.entries@[i].0@ == k
    }

    /// The value stored under the name `k`.
    pub closed spec fn value_of(&self, k: Seq<char>) -> V {
        self.entries@[choose|i: int| 0 <= i < self.entries@.len() && self.entries@[i].0@ == k].1
    }

    /// The view of the value stored under the name `k`.
    pub open spec fn lookup(&self, k: Seq<char>) -> V::V {
        self.value_of(k)@
    }
}

impl<V: View> View for NameMap<V> {
    type V = Map<Seq<char>, V::V>;

    open spec fn view(&self) -> Map<Seq<char>, V::V> {
        Map::new(|k: Seq<char>| self.has(k), |k: Seq<char>| self.lookup(k))
    }
}

impl<V: View> NameMap<V> {
    /// An empty map.
    pub fn new() -> (m: Self)
        ensures
            m@ == Map::<Seq<char>, V::V>::empty(),
            m.size() == 0,
    {
        let m = NameMap { entries: Vec::new() };
        assert(m@ =~= Map::<Seq<char>, V::V>::empty());
        m
    }

    /// The position of the entry named `k`, if there is one.
    fn position(&self, k: &str) -> (r: Option<usize>)
        ensures
            match r {
                Some(i) => i < self.entries@.len() && self.entries@[i as int].0@ == k@,
                None => !self.has(k@),
            },
    {
        let mut i: usize = 0;
        while i < self.entries.len()
            invariant
                i <= self.entries@.len(),
                forall|j: int| 0 <= j < i ==> self.entries@[j].0@ != k@,
            decreases self.entries@.len() - i,
        {
            if same_text(self.entries[i].0.as_str(), k) {
                return Some(i);
            }
            i = i + 1;
        }
        None
    }

    /// Whether `k` names an entry.
    pub fn contains_key(&self, k: &str) -> (r: bool)
        ensures
            r == self@.contains_key(k@),
    {
        self.position(k).is_some()
    }

    /// The value stored under `k`, if any.
    pub fn get(&self, k: &str) -> (r: Option<&V>)
        ensures
            match r {
                Some(v) => self@.contains_key(k@) && self@[k@] == v@,
                None => !self@.contains_key(k@),
            },
    {
        proof {
            use_type_invariant(self);
        }
        match self.position(k) {
            Some(i) => {
                proof {
                    let c = choose|j: int| 0 <= j < self.entries@.len() && self.entries@[j].0@ == k@;
                    assert(c == i);
                }
                Some(&self.entries[i].1)
            },
            None => None,
        }
    }

    /// Stores `v` under `k`, replacing any value that `k` had.
    pub fn insert(&mut self, k: String, v: V)
        ensures
            final(self)@ == old(self)@.insert(k@, v@),
    {
        proof {
            use_type_invariant(&*self);
        }
        let ghost before = *self;
        let found = self.position(k.as_str());
        let mut entries: Vec<(String, V)> = Vec::new();
        std::mem::swap(&mut entries, &mut self.entries);
        match found {
            Some(i) => {
                entries.set(i, (k, v));
            },
            None => {
                entries.push((k, v));
            },
        }
        self.entries = entries;
        proof {
            use_type_invariant(&*self);
        }
        assert forall|key: Seq<char>| #[trigger] self.has(key) implies self.lookup(key) == before@.insert(k@, v@)[key] by {
            let c = choose|j: int| 0 <= j < self.entries@.len() && self.entries@[j].0@ == key;
            if key != k@ {
                assert(before.has(key));
                let d = choose|j: int| 0 <= j < before.entries@.len() && before.entries@[j].0@ == key;
                assert(c == d);
            }
        }
        assert forall|key: Seq<char>| #[trigger] self@.contains_key(key) <==> before@.insert(k@, v@).contains_key(key) by {
            if key == k@ {
                if found is Some {
                    assert(self.entries@[found->0 as int].0@ == k@);
                } else {
                    assert(self.entries@[self.entries@.len() - 1].0@ == k@);
                }
                assert(self.has(key));
            } else if before.has(key) {
                let d = choose|j: int| 0 <= j < before.entries@.len() && before.entries@[j].0@ == key;
                assert(self.entries@[d].0@ == key);
                assert(self.has(key));
            }
        }
        assert(self@ =~= before@.insert(k@, v@));
    }

    /// The number of names in the map.
    pub fn len(&self) -> (n: usize)
        ensures
            n == self.size(),
            n == self@.len(),
            self@.dom().finite(),
    {
        proof {
            use_type_invariant(self);
            let keys = self.entries@.map_values(|e: (String, V)| e.0@);
            assert(keys.no_duplicates());
            keys.unique_seq_to_set();
            vstd::seq_lib::seq_to_set_is_finite(keys);
            assert forall|k: Seq<char>| #[trigger] self@.dom().contains(k) <==> keys.to_set().contains(k) by {
                if self.has(k) {
                    let j = choose|j: int| 0 <= j < self.entries@.len() && self.entries@[j].0@ == k;
                    assert(keys[j] == k);
                }
                if keys.contains(k) {
                    let j = choose|j: int| 0 <= j < keys.len() && keys[j] == k;
                    assert(self.entries@[j].0@ == k);
                }
            }
            assert(self@.dom() =~= keys.to_set());
        }
        self.entries.len()
    }

    /// The value of the entry at position `i`.
    pub fn value_at(&self, i: usize) -> (r: &V)
        requires
            i < self.size(),
        ensures
            self@.contains_key(self.key_at(i as int)),
            self@[self.key_at(i as int)] == r@,
    {
        proof {
            use_type_invariant(self);
            let k = self.entries@[i as int].0@;
            assert(self.has(k));
            let c = choose|j: int| 0 <= j < self.entries@.len() && self.entries@[j].0@ == k;
            assert(c == i);
        }
        &self.entries[i].1
    }

    /// The name of the entry at position `i`.
    pub fn name_at(&self, i: usize) -> (r: &String)
        requires
            i < self.size(),
        ensures
            r@ == self.key_at(i as int),
    {
        &self.entries[i].0
    }

    /// Every name in the map is the name of some entry.
    pub proof fn lemma_keys(&self)
        ensures
            forall|k: Seq<char>| #[trigger] self@.contains_key(k)
                ==> exists|i: int| 0 <= i < self.size() && self.key_at(i) == k,
    {
        assert forall|k: Seq<char>| #[trigger] self@.contains_key(k) implies exists|i: int|
            0 <= i < self.size() && self.key_at(i) == k by {
            assert(self.has(k));
            let i = choose|i: int| 0 <= i < self.entries@.len() && self.entries@[i].0@ == k;
            assert(self.key_at(i) == k);
        }
    }
}

/// Two finite maps of the same size, one of which holds every entry of the
/// other, are equal.
pub(crate) proof fn lemma_maps_equal<K, W>(a: Map<K, W>, b: Map<K, W>)
    requires
        a.dom().finite(),
        b.dom().finite(),
        a.len() == b.len(),
        forall|k: K| #[trigger] a.contains_key(k) ==> b.contains_key(k) && b[k] == a[k],
    ensures
        a == b,
{
    vstd::set_lib::lemma_subset_equality(a.dom(), b.dom());
    assert(a =~= b);
}

impl<V: View + Clone> Clone for NameMap<V> {
    /// A copy with the same names, each value copied by its own `clone`.
    fn clone(&self) -> (r: Self)
        ensures
            r@.dom() == self@.dom(),
            forall|k: Seq<char>| #[trigger] r@.contains_key(k)
                ==> cloned::<V>(self.value_of(k), r.value_of(k)),
    {
        proof {
            use_type_invariant(self);
        }
        let mut entries: Vec<(String, V)> = Vec::new();
        let mut i: usize = 0;
        while i < self.entries.len()
            invariant
                i <= self.entries@.len(),
                entries@.len() == i,
                forall|j: int| 0 <= j < i ==> #[trigger] entries@[j].0@ == self.entries@[j].0@,
                forall|j: int| 0 <= j < i ==> cloned::<V>(self.entries@[j].1, #[trigger] entries@[j].1),
                forall|a: int, b: int|
                    0 <= a < self.entries@.len() && 0 <= b < self.entries@.len() && a != b
                        ==> #[trigger] self.entries@[a].0@ != #[trigger] self.entries@[b].0@,
            decreases self.entries@.len() - i,
        {
            let key = self.entries[i].0.clone();
            let value = self.entries[i].1.clone();
            entries.push((key, value));
            i = i + 1;
        }
        let r = NameMap { entries };
        assert forall|k: Seq<char>| #[trigger] r@.contains_key(k) <==> self@.contains_key(k) by {
            if r.has(k) {
                let j = choose|j: int| 0 <= j < r.entries@.len() && r.entries@[j].0@ == k;
                assert(self.entries@[j].0@ == k);
            }
            if self.has(k) {
                let j = choose|j: int| 0 <= j < self.entries@.len() && self.entries@[j].0@ == k;
                assert(r.entries@[j].0@ == k);
            }
        }
        assert(r@.dom() =~= self@.dom());
        assert forall|k: Seq<char>| #[trigger] r@.contains_key(k)
            implies cloned::<V>(self.value_of(k), r.value_of(k)) by {
            let j = choose|j: int| 0 <= j < r.entries@.len() && r.entries@[j].0@ == k;
            let c = choose|j: int| 0 <= j < self.entries@.len() && self.entries@[j].0@ == k;
            assert(self.entries@[j].0@ == k);
            assert(c == j);
        }
        r
    }
}

} // verus!
