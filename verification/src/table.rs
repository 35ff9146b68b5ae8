//! A small association table keyed by `Symbol`, viewed in specifications as
//! a `Map<Seq<u8>, V>`. The cache, the price history and the mock oracle's
//! price list are all instances of it.

use vstd::prelude::*;

use crate::types::Symbol;
use crate::types::sym_eq;

verus! {

pub struct TableEntry<V> {
    pub key: Symbol,
    pub value: V,
}

/// One value per distinct key text; lookups scan, updates overwrite in
/// place, new keys append.
pub struct SymTable<V> {
    pub entries: Vec<TableEntry<V>>,
}

/// No two entries share a key text.
pub open spec fn entries_distinct<V>(s: Seq<TableEntry<V>>) -> bool {
    forall|i: int, j: int| 0 <= i < j < s.len() ==> s[i].key@ != s[j].key@
}

/// The map an entry sequence denotes.
pub open spec fn map_of<V>(s: Seq<TableEntry<V>>) -> Map<Seq<u8>, V>
    decreases s.len(),
{
    if s.len() == 0 {
        Map::empty()
    } else {
        map_of(s.drop_last()).insert(s.last().key@, s.last().value)
    }
}

impl<V> View for SymTable<V> {
    type V = Map<Seq<u8>, V>;

    open spec fn view(&self) -> Map<Seq<u8>, V> {
        map_of(self.entries@)
    }
}

/// A key is in the denoted map exactly when some entry carries it.
pub proof fn lemma_map_of_contains<V>(s: Seq<TableEntry<V>>, k: Seq<u8>)
    ensures
        map_of(s).contains_key(k) <==> exists|i: int| 0 <= i < s.len() && s[i].key@ == k,
    decreases s.len(),
{
    if s.len() > 0 {
        lemma_map_of_contains(s.drop_last(), k);
        if s.last().key@ == k {
            assert(s[s.len() - 1].key@ == k);
        } else {
            if map_of(s).contains_key(k) {
                let i = choose|i: int| 0 <= i < s.len() - 1 && s.drop_last()[i].key@ == k;
                assert(s[i].key@ == k);
            }
            if exists|i: int| 0 <= i < s.len() && s[i].key@ == k {
                let i = choose|i: int| 0 <= i < s.len() && s[i].key@ == k;
                if i < s.len() - 1 {
                    assert(s.drop_last()[i].key@ == k);
                }
            }
        }
    }
}

/// Under distinct keys, the denoted map sends an entry's key to its value.
pub proof fn lemma_map_of_value<V>(s: Seq<TableEntry<V>>, k: Seq<u8>, i: int)
    requires
        entries_distinct(s),
        0 <= i < s.len(),
        s[i].key@ == k,
    ensures
        map_of(s).contains_key(k),
        map_of(s)[k] == s[i].value,
    decreases s.len(),
{
    if i == s.len() - 1 {
    } else {
        assert(entries_distinct(s.drop_last()));
        assert(s.drop_last()[i].key@ == k);
        lemma_map_of_value(s.drop_last(), k, i);
        assert(s.last().key@ != k);
    }
}

/// Replacing the value of the entry that carries `k` denotes `insert(k, v)`.
pub proof fn lemma_map_of_update<V>(
    s1: Seq<TableEntry<V>>,
    s2: Seq<TableEntry<V>>,
    i: int,
    k: Seq<u8>,
    v: V,
)
    requires
        entries_distinct(s1),
        0 <= i < s1.len(),
        s1[i].key@ == k,
        s2.len() == s1.len(),
        s2[i].key@ == k,
        s2[i].value == v,
        forall|j: int| 0 <= j < s1.len() && j != i ==> s2[j] == s1[j],
    ensures
        map_of(s2) == map_of(s1).insert(k, v),
    decreases s1.len(),
{
    if i == s1.len() - 1 {
        assert(s2.drop_last() =~= s1.drop_last());
        assert(map_of(s1).insert(k, v) =~= map_of(s1.drop_last()).insert(k, v));
    } else {
        assert(entries_distinct(s1.drop_last()));
        assert(s1.drop_last()[i].key@ == k);
        assert(s2.drop_last()[i] == s2[i]);
        assert(forall|j: int|
            0 <= j < s1.len() - 1 && j != i ==> s2.drop_last()[j] == s1.drop_last()[j]);
        lemma_map_of_update(s1.drop_last(), s2.drop_last(), i, k, v);
        assert(s2.last() == s1.last());
        let lk = s1.last().key@;
        assert(lk != k);
        assert(map_of(s1.drop_last()).insert(k, v).insert(lk, s1.last().value) =~= map_of(
            s1.drop_last(),
        ).insert(lk, s1.last().value).insert(k, v));
    }
}

/// Appending an entry denotes `insert` of its key and value.
pub proof fn lemma_map_of_push<V>(s: Seq<TableEntry<V>>, e: TableEntry<V>)
    ensures
        map_of(s.push(e)) == map_of(s).insert(e.key@, e.value),
{
    assert(s.push(e).drop_last() =~= s);
    assert(s.push(e).last() == e);
}

impl<V> SymTable<V> {
    pub open spec fn wf(&self) -> bool {
        entries_distinct(self.entries@)
    }

    pub fn new() -> (t: Self)
        ensures
            t.wf(),
            t@ == Map::<Seq<u8>, V>::empty(),
    {
        SymTable { entries: Vec::new() }
    }

    /// Index of the entry carrying `key`, if any.
    fn find(&self, key: &Symbol) -> (r: Option<usize>)
        ensures
            match r {
                Some(i) => i < self.entries@.len() && self.entries@[i as int].key@ == key@,
                None => forall|j: int| 0 <= j < self.entries@.len()
                    ==> self.entries@[j].key@ != key@,
            },
    {
        let mut i: usize = 0;
        while i < self.entries.len()
            invariant
                i <= self.entries@.len(),
                forall|j: int| 0 <= j < i ==> self.entries@[j].key@ != key@,
            decreases self.entries@.len() - i,
        {
            if sym_eq(&self.entries[i].key, key) {
                return Some(i);
            }
            i = i + 1;
        }
        None
    }

    pub fn get(&self, key: &Symbol) -> (r: Option<&V>)
        requires
            self.wf(),
        ensures
            match r {
                Some(v) => self@.contains_key(key@) && *v == self@[key@],
                None => !self@.contains_key(key@),
            },
    {
        match self.find(key) {
            Some(i) => {
                proof {
                    lemma_map_of_value(self.entries@, key@, i as int);
                }
                Some(&self.entries[i].value)
            },
            None => {
                proof {
                    lemma_map_of_contains(self.entries@, key@);
                }
                None
            },
        }
    }

    pub fn put(&mut self, key: Symbol, value: V)
        requires
            old(self).wf(),
        ensures
            final(self).wf(),
            final(self)@ == old(self)@.insert(key@, value),
    {
        let ghost s1 = self.entries@;
        let ghost gv = value;
        match self.find(&key) {
            Some(i) => {
                self.entries[i].value = value;
                proof {
                    lemma_map_of_update(s1, self.entries@, i as int, key@, gv);
                    assert(forall|j: int|
                        0 <= j < self.entries@.len() ==> self.entries@[j].key@ == s1[j].key@);
                }
            },
            None => {
                self.entries.push(TableEntry { key, value });
                proof {
                    lemma_map_of_push(s1, self.entries@.last());
                    assert(self.entries@.drop_last() =~= s1);
                    assert(entries_distinct(self.entries@));
                }
            },
        }
    }
}

} // verus!
