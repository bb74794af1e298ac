use vstd::prelude::*;
use crate::record::{DomainRecord, RecordModel};

verus! {

/// One persisted cell: a storage key and the record stored under it.
pub struct StoreEntry {
    pub key: String,
    pub record: DomainRecord,
}

/// No two entries carry the same key.
pub open spec fn unique_keys(s: Seq<StoreEntry>) -> bool {
    forall|i: int, j: int|
        0 <= i < j < s.len() ==> s[i].key@ != s[j].key@
}

/// The entries as a map from key to stored record.
pub open spec fn store_map(s: Seq<StoreEntry>) -> Map<Seq<char>, RecordModel> {
    Map::new(
        |k: Seq<char>| exists|i: int| 0 <= i < s.len() && s[i].key@ == k,
        |k: Seq<char>| s[idx_of(s, k)].record@,
    )
}

/// Some index whose entry carries the key `k`.
pub open spec fn idx_of(s: Seq<StoreEntry>, k: Seq<char>) -> int {
    choose|i: int| 0 <= i < s.len() && s[i].key@ == k
}

/// With unique keys, the map reads the record of any entry that carries `k`.
proof fn lemma_store_map_value(s: Seq<StoreEntry>, i: int)
    requires
        unique_keys(s),
        0 <= i < s.len(),
    ensures
        store_map(s).dom().contains(s[i].key@),
        store_map(s)[s[i].key@] == s[i].record@,
{
    let k = s[i].key@;
    assert(exists|j: int| 0 <= j < s.len() && s[j].key@ == k);
    let w = idx_of(s, k);
    assert(0 <= w < s.len() && s[w].key@ == k);
    assert(w == i);
}

/// Overwriting the entry at `i` with one carrying the same key updates the
/// map at that key and nothing else.
proof fn lemma_store_map_update(s: Seq<StoreEntry>, i: int, e: StoreEntry)
    requires
        unique_keys(s),
        0 <= i < s.len(),
        s[i].key@ == e.key@,
    ensures
        unique_keys(s.update(i, e)),
        store_map(s.update(i, e)) == store_map(s).insert(e.key@, e.record@),
{
    let s2 = s.update(i, e);
    assert(forall|j: int| 0 <= j < s.len() ==> s2[j].key@ == s[j].key@);
    let m2 = store_map(s).insert(e.key@, e.record@);
    assert forall|k: Seq<char>| store_map(s2).dom().contains(k) == m2.dom().contains(k) by {
        assert((exists|j: int| 0 <= j < s2.len() && s2[j].key@ == k) == (exists|j: int|
            0 <= j < s.len() && s[j].key@ == k));
        if k == e.key@ {
            assert(s[i].key@ == k);
        }
    }
    assert forall|k: Seq<char>| store_map(s2).dom().contains(k) implies store_map(s2)[k]
        == m2[k] by {
        if k == e.key@ {
            lemma_store_map_value(s2, i);
        } else {
            let j = choose|j: int| 0 <= j < s.len() && s[j].key@ == k;
            assert(j != i);
            lemma_store_map_value(s, j);
            lemma_store_map_value(s2, j);
        }
    }
    assert(store_map(s2) =~= m2);
}

/// Appending an entry with a fresh key adds it to the map and changes
/// nothing else.
proof fn lemma_store_map_push(s: Seq<StoreEntry>, e: StoreEntry)
    requires
        unique_keys(s),
        forall|j: int| 0 <= j < s.len() ==> s[j].key@ != e.key@,
    ensures
        unique_keys(s.push(e)),
        store_map(s.push(e)) == store_map(s).insert(e.key@, e.record@),
{
    let s2 = s.push(e);
    assert(forall|j: int| 0 <= j < s.len() ==> s2[j].key@ == s[j].key@);
    assert(s2[s.len() as int].key@ == e.key@);
    let m2 = store_map(s).insert(e.key@, e.record@);
    assert forall|k: Seq<char>| store_map(s2).dom().contains(k) == m2.dom().contains(k) by {
        if k == e.key@ {
            assert(s2[s.len() as int].key@ == k);
        } else {
            assert((exists|j: int| 0 <= j < s2.len() && s2[j].key@ == k) == (exists|j: int|
                0 <= j < s.len() && s[j].key@ == k));
        }
    }
    assert forall|k: Seq<char>| store_map(s2).dom().contains(k) implies store_map(s2)[k]
        == m2[k] by {
        if k == e.key@ {
            lemma_store_map_value(s2, s.len() as int);
        } else {
            let j = choose|j: int| 0 <= j < s.len() && s[j].key@ == k;
            lemma_store_map_value(s, j);
            lemma_store_map_value(s2, j);
        }
    }
    assert(store_map(s2) =~= m2);
}

/// An in-memory key-value state store: the injected persistence capability
/// the registry reads and writes. Keyed reads return the stored record;
/// a write either overwrites the record under its key or adds a new one.
pub struct StateStore {
    entries: Vec<StoreEntry>,
}

impl View for StateStore {
    type V = Map<Seq<char>, RecordModel>;

    closed spec fn view(&self) -> Map<Seq<char>, RecordModel> {
        store_map(self.entries@)
    }
}

impl StateStore {
    /// Internal shape: no key is stored twice.
    pub closed spec fn wf(self) -> bool {
        unique_keys(self.entries@)
    }

    /// An empty store: no key holds a record.
    pub fn new() -> (s: StateStore)
        ensures
            s.wf(),
            s@ == Map::<Seq<char>, RecordModel>::empty(),
    {
        let s = StateStore { entries: Vec::new() };
        proof {
            assert(s@ =~= Map::<Seq<char>, RecordModel>::empty());
        }
        s
    }

    /// Reads the record stored under `key`, if any.
    pub fn read(&self, key: &String) -> (r: Option<&DomainRecord>)
        requires
            self.wf(),
        ensures
            match r {
                Some(record) => self@.dom().contains(key@) && record@ == self@[key@],
                None => !self@.dom().contains(key@),
            },
    {
        let n = self.entries.len();
        let mut i: usize = 0;
        while i < n
            invariant
                n == self.entries@.len(),
                i <= n,
                unique_keys(self.entries@),
                forall|j: int| 0 <= j < i ==> self.entries@[j].key@ != key@,
            decreases n - i,
        {
            if self.entries[i].key == *key {
                proof {
                    lemma_store_map_value(self.entries@, i as int);
                }
                return Some(&self.entries[i].record);
            }
            i = i + 1;
        }
        None
    }

    /// Stores `record` under `key`: an existing record under that key is
    /// overwritten; otherwise the pair is added. No other key is touched.
    pub fn write(&mut self, key: String, record: DomainRecord)
        requires
            old(self).wf(),
        ensures
            final(self).wf(),
            final(self)@ == old(self)@.insert(key@, record@),
    {
        let n = self.entries.len();
        let mut i: usize = 0;
        while i < n
            invariant
                n == self.entries@.len(),
                i <= n,
                unique_keys(self.entries@),
                forall|j: int| 0 <= j < i ==> self.entries@[j].key@ != key@,
                self == old(self),
            decreases n - i,
        {
            if self.entries[i].key == key {
                proof {
                    lemma_store_map_update(
                        self.entries@,
                        i as int,
                        (StoreEntry { key, record }),
                    );
                }
                self.entries[i] = StoreEntry { key, record };
                return;
            }
            i = i + 1;
        }
        proof {
            lemma_store_map_push(self.entries@, (StoreEntry { key, record }));
        }
        self.entries.push(StoreEntry { key, record });
    }
}

} // verus!
