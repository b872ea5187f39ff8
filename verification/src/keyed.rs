//! A keyed record table.
//!
//! [`KeyedTable`] is a small association table from numeric keys to values,
//! holding at most one record per key. Its mathematical image is a
//! [`Map`] from keys to the deep views of the stored values. It backs the
//! field set of a props value, the component and retained-props tables of an
//! entity, the runtime type registry, and the per-file reload state.

use vstd::prelude::*;

verus! {

/// One record of a [`KeyedTable`].
#[derive(Clone, Debug)]
pub struct KeyRec<V> {
    /// The key of the record.
    pub key: u64,
    /// The stored value.
    pub value: V,
}

/// The map image of a sequence of records: later records shadow earlier
/// ones, though a well-formed table never holds two records with one key.
pub open spec fn rec_map<V: DeepView>(s: Seq<KeyRec<V>>) -> Map<u64, V::V>
    decreases s.len(),
{
    if s.len() == 0 {
        Map::empty()
    } else {
        rec_map(s.drop_last()).insert(s.last().key, s.last().value.deep_view())
    }
}

/// No two records share a key.
pub open spec fn distinct_keys<V>(s: Seq<KeyRec<V>>) -> bool {
    forall|i: int, j: int| 0 <= i < j < s.len() ==> s[i].key != s[j].key
}

/// A key is present in the map image exactly when some record holds it.
pub proof fn lemma_rec_map_contains<V: DeepView>(s: Seq<KeyRec<V>>, k: u64)
    ensures
        rec_map(s).contains_key(k) <==> (exists|i: int| 0 <= i < s.len() && s[i].key == k),
    decreases s.len(),
{
    if s.len() > 0 {
        lemma_rec_map_contains(s.drop_last(), k);
        if s.last().key != k {
            if rec_map(s).contains_key(k) {
                let i = choose|i: int| 0 <= i < s.len() - 1 && s.drop_last()[i].key == k;
                assert(s[i].key == k);
            }
            if exists|i: int| 0 <= i < s.len() && s[i].key == k {
                let i = choose|i: int| 0 <= i < s.len() && s[i].key == k;
                assert(s.drop_last()[i] == s[i]);
            }
        }
    }
}

/// In a table with distinct keys, the map image at a record's key is that
/// record's value.
pub proof fn lemma_rec_map_at<V: DeepView>(s: Seq<KeyRec<V>>, i: int)
    requires
        distinct_keys(s),
        0 <= i < s.len(),
    ensures
        rec_map(s).contains_key(s[i].key),
        rec_map(s)[s[i].key] == s[i].value.deep_view(),
    decreases s.len(),
{
    if i < s.len() - 1 {
        assert(s.drop_last()[i] == s[i]);
        lemma_rec_map_at(s.drop_last(), i);
        assert(s.last().key != s[i].key);
    }
}

/// Replacing the record that holds a key updates the map image at that key.
pub proof fn lemma_rec_map_update<V: DeepView>(s: Seq<KeyRec<V>>, i: int, r: KeyRec<V>)
    requires
        distinct_keys(s),
        0 <= i < s.len(),
        s[i].key == r.key,
    ensures
        rec_map(s.update(i, r)) =~= rec_map(s).insert(r.key, r.value.deep_view()),
    decreases s.len(),
{
    if i == s.len() - 1 {
        assert(s.update(i, r).drop_last() =~= s.drop_last());
        assert(s.update(i, r).last() == r);
    } else {
        assert(s.update(i, r).drop_last() =~= s.drop_last().update(i, r));
        assert(s.drop_last()[i] == s[i]);
        lemma_rec_map_update(s.drop_last(), i, r);
        assert(s.update(i, r).last() == s.last());
        assert(s.last().key != r.key);
    }
}

/// A keyed record table: at most one record per key.
#[derive(Clone, Debug)]
pub struct KeyedTable<V> {
    /// The records, no two sharing a key.
    pub recs: Vec<KeyRec<V>>,
}

impl<V: DeepView> DeepView for KeyedTable<V> {
    type V = Map<u64, V::V>;

    open spec fn deep_view(&self) -> Map<u64, V::V> {
        rec_map(self.recs@)
    }
}

impl<V: DeepView> KeyedTable<V> {
    /// Well-formed: no two records share a key.
    pub open spec fn wf(self) -> bool {
        distinct_keys(self.recs@)
    }

    /// Creates an empty table.
    pub fn new() -> (t: KeyedTable<V>)
        ensures
            t.wf(),
            t.deep_view() == Map::<u64, V::V>::empty(),
            t.recs@.len() == 0,
    {
        KeyedTable { recs: Vec::new() }
    }

    /// Returns the index of the record holding `key`, if any.
    fn find(&self, key: u64) -> (r: Option<usize>)
        requires
            self.wf(),
        ensures
            match r {
                Some(i) => i < self.recs@.len() && self.recs@[i as int].key == key
                    && self.deep_view().contains_key(key)
                    && self.deep_view()[key] == self.recs@[i as int].value.deep_view(),
                None => !self.deep_view().contains_key(key),
            },
    {
        let n = self.recs.len();
        for i in 0..n
            invariant
                n == self.recs@.len(),
                distinct_keys(self.recs@),
                forall|j: int| 0 <= j < i ==> self.recs@[j].key != key,
        {
            if self.recs[i].key == key {
                proof {
                    lemma_rec_map_at(self.recs@, i as int);
                }
                return Some(i);
            }
        }
        proof {
            lemma_rec_map_contains(self.recs@, key);
        }
        None
    }

    /// Whether a record holds `key`.
    pub fn contains_key(&self, key: u64) -> (b: bool)
        requires
            self.wf(),
        ensures
            b == self.deep_view().contains_key(key),
    {
        self.find(key).is_some()
    }

    /// Returns the value stored under `key`, if any. The returned value is
    /// one of the stored records, so properties that hold of every stored
    /// value hold of it.
    pub fn get(&self, key: u64) -> (r: Option<&V>)
        requires
            self.wf(),
        ensures
            match r {
                Some(v) => self.deep_view().contains_key(key)
                    && v.deep_view() == self.deep_view()[key]
                    && (exists|i: int| 0 <= i < self.recs@.len()
                        && (#[trigger] self.recs@[i]).key == key && *v == self.recs@[i].value),
                None => !self.deep_view().contains_key(key),
            },
    {
        match self.find(key) {
            Some(i) => Some(&self.recs[i].value),
            None => None,
        }
    }

    /// Stores `value` under `key`, replacing any previous record. Every
    /// stored value afterwards is either a previously stored value or the
    /// new one, so properties that hold of all of them are preserved.
    pub fn set(&mut self, key: u64, value: V)
        requires
            old(self).wf(),
        ensures
            final(self).wf(),
            final(self).deep_view() == old(self).deep_view().insert(key, value.deep_view()),
            forall|i: int| 0 <= i < final(self).recs@.len()
                ==> (#[trigger] final(self).recs@[i]).value == value
                    || (exists|j: int| 0 <= j < old(self).recs@.len()
                        && final(self).recs@[i].value == old(self).recs@[j].value),
    {
        let r = KeyRec { key, value };
        match self.find(key) {
            Some(i) => {
                proof {
                    lemma_rec_map_update(self.recs@, i as int, r);
                }
                self.recs.set(i, r);
            },
            None => {
                proof {
                    lemma_rec_map_contains(self.recs@, key);
                    assert(self.recs@.push(r).drop_last() =~= self.recs@);
                }
                self.recs.push(r);
            },
        }
    }
}

} // verus!
