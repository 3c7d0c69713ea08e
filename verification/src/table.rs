//! A small association table keyed by a `(name, suffix)` pair of byte
//! strings, viewed as a `Map`. The registry keys its leases and offers
//! this way, and the resolver its records.

use vstd::prelude::*;
use crate::name::bytes_eq;

verus! {

/// One keyed entry.
pub struct Entry<V> {
    pub name: Vec<u8>,
    pub tld: Vec<u8>,
    pub value: V,
}

/// The key of an entry, in view form.
pub open spec fn entry_key<V>(e: Entry<V>) -> (Seq<u8>, Seq<u8>) {
    (e.name@, e.tld@)
}

/// The map an entry sequence stands for; a later entry would win, and
/// the well-formedness invariant keeps keys unique.
pub open spec fn entries_map<V: View>(s: Seq<Entry<V>>) -> Map<(Seq<u8>, Seq<u8>), V::V>
    decreases s.len(),
{
    if s.len() == 0 {
        Map::empty()
    } else {
        entries_map(s.drop_last()).insert(entry_key(s.last()), s.last().value@)
    }
}

/// A table from `(name, suffix)` keys to values.
pub struct Table<V> {
    pub entries: Vec<Entry<V>>,
}

impl<V: View> View for Table<V> {
    type V = Map<(Seq<u8>, Seq<u8>), V::V>;

    open spec fn view(&self) -> Map<(Seq<u8>, Seq<u8>), V::V> {
        entries_map(self.entries@)
    }
}

/// A key of the map is a key of some entry.
proof fn lemma_entries_map_dom<V: View>(s: Seq<Entry<V>>, k: (Seq<u8>, Seq<u8>))
    ensures
        entries_map(s).dom().contains(k) <==> exists|i: int|
            0 <= i < s.len() && entry_key(#[trigger] s[i]) == k,
    decreases s.len(),
{
    if s.len() > 0 {
        lemma_entries_map_dom(s.drop_last(), k);
        if entry_key(s.last()) == k {
            assert(entry_key(s[s.len() - 1]) == k);
        } else if entries_map(s.drop_last()).dom().contains(k) {
            let i = choose|i: int|
                0 <= i < s.drop_last().len() && entry_key(#[trigger] s.drop_last()[i]) == k;
            assert(entry_key(s[i]) == k);
        } else {
            assert(forall|i: int| 0 <= i < s.len() - 1 ==> s.drop_last()[i] == s[i]);
        }
    }
}

/// With unique keys, the map's value at an entry's key is that entry's.
proof fn lemma_entries_map_at<V: View>(s: Seq<Entry<V>>, i: int)
    requires
        unique_keys(s),
        0 <= i < s.len(),
    ensures
        entries_map(s).dom().contains(entry_key(s[i])),
        entries_map(s)[entry_key(s[i])] == s[i].value@,
    decreases s.len(),
{
    if i == s.len() - 1 {
    } else {
        assert(forall|j: int| 0 <= j < s.len() - 1 ==> s.drop_last()[j] == s[j]);
        lemma_entries_map_at(s.drop_last(), i);
        assert(entry_key(s[i]) != entry_key(s[s.len() - 1]));
    }
}

/// No two entries share a key.
pub open spec fn unique_keys<V>(s: Seq<Entry<V>>) -> bool {
    forall|i: int, j: int|
        0 <= i < j < s.len() ==> entry_key(#[trigger] s[i]) != entry_key(#[trigger] s[j])
}

/// Updating the entry at a key's index updates the map at that key.
proof fn lemma_entries_map_update<V: View>(s: Seq<Entry<V>>, i: int, e: Entry<V>)
    requires
        unique_keys(s),
        0 <= i < s.len(),
        entry_key(e) == entry_key(s[i]),
    ensures
        entries_map(s.update(i, e)) == entries_map(s).insert(entry_key(e), e.value@),
    decreases s.len(),
{
    let t = s.update(i, e);
    if i == s.len() - 1 {
        assert(t.drop_last() =~= s.drop_last());
        assert(t.last() == e);
        assert(entries_map(t) =~= entries_map(s).insert(entry_key(e), e.value@));
    } else {
        assert(forall|j: int| 0 <= j < s.len() - 1 ==> s.drop_last()[j] == s[j]);
        lemma_entries_map_update(s.drop_last(), i, e);
        assert(t.drop_last() =~= s.drop_last().update(i, e));
        assert(t.last() == s.last());
        assert(entry_key(s.last()) != entry_key(e));
        assert(entries_map(t) =~= entries_map(s).insert(entry_key(e), e.value@));
    }
}

/// Removing the entry at a key's index removes that key from the map.
proof fn lemma_entries_map_remove<V: View>(s: Seq<Entry<V>>, i: int)
    requires
        unique_keys(s),
        0 <= i < s.len(),
    ensures
        entries_map(s.remove(i)) == entries_map(s).remove(entry_key(s[i])),
    decreases s.len(),
{
    let t = s.remove(i);
    if i == s.len() - 1 {
        assert(t =~= s.drop_last());
        lemma_entries_map_dom(s.drop_last(), entry_key(s[i]));
        assert(forall|j: int| 0 <= j < s.len() - 1 ==> s.drop_last()[j] == s[j]);
        assert(!entries_map(s.drop_last()).dom().contains(entry_key(s[i])));
        assert(entries_map(t) =~= entries_map(s).remove(entry_key(s[i])));
    } else {
        assert(forall|j: int| 0 <= j < s.len() - 1 ==> s.drop_last()[j] == s[j]);
        lemma_entries_map_remove(s.drop_last(), i);
        assert(t.drop_last() =~= s.drop_last().remove(i));
        assert(t.last() == s.last());
        assert(entry_key(s.last()) != entry_key(s[i]));
        assert(entries_map(t) =~= entries_map(s).remove(entry_key(s[i])));
    }
}

impl<V: View> Table<V> {
    /// Keys are unique, so the sequence and its map agree entry by
    /// entry.
    pub open spec fn wf(&self) -> bool {
        unique_keys(self.entries@)
    }

    /// An empty table.
    pub fn new() -> (r: Table<V>)
        ensures
            r.wf(),
            r@ == Map::<(Seq<u8>, Seq<u8>), V::V>::empty(),
    {
        Table { entries: Vec::new() }
    }

    /// The index holding the key, if any.
    fn find(&self, name: &Vec<u8>, tld: &Vec<u8>) -> (r: Option<usize>)
        ensures
            match r {
                Some(i) => {
                    &&& i < self.entries@.len()
                    &&& entry_key(self.entries@[i as int]) == (name@, tld@)
                },
                None => forall|i: int|
                    0 <= i < self.entries@.len() ==> entry_key(#[trigger] self.entries@[i])
                        != (name@, tld@),
            },
    {
        let mut i: usize = 0;
        while i < self.entries.len()
            invariant
                0 <= i <= self.entries@.len(),
                forall|j: int|
                    0 <= j < i ==> entry_key(#[trigger] self.entries@[j]) != (name@, tld@),
            decreases self.entries@.len() - i,
        {
            if bytes_eq(&self.entries[i].name, name) && bytes_eq(&self.entries[i].tld, tld) {
                return Some(i);
            }
            i += 1;
        }
        None
    }

    /// Whether the table holds the key.
    pub fn contains(&self, name: &Vec<u8>, tld: &Vec<u8>) -> (r: bool)
        ensures
            r == self@.dom().contains((name@, tld@)),
    {
        let r = self.find(name, tld);
        proof {
            lemma_entries_map_dom(self.entries@, (name@, tld@));
        }
        r.is_some()
    }

    /// The value at the key, if any.
    pub fn get(&self, name: &Vec<u8>, tld: &Vec<u8>) -> (r: Option<&V>)
        requires
            self.wf(),
        ensures
            match r {
                Some(v) => {
                    &&& self@.dom().contains((name@, tld@))
                    &&& v@ == self@[(name@, tld@)]
                },
                None => !self@.dom().contains((name@, tld@)),
            },
    {
        proof {
            lemma_entries_map_dom(self.entries@, (name@, tld@));
        }
        match self.find(name, tld) {
            Some(i) => {
                proof {
                    lemma_entries_map_at(self.entries@, i as int);
                }
                Some(&self.entries[i].value)
            },
            None => None,
        }
    }

    /// Binds the key to the value, overwriting any prior binding.
    pub fn set(&mut self, name: Vec<u8>, tld: Vec<u8>, value: V)
        requires
            old(self).wf(),
        ensures
            final (self).wf(),
            final (self)@ == old(self)@.insert((name@, tld@), value@),
    {
        let ghost s0 = self.entries@;
        match self.find(&name, &tld) {
            Some(i) => {
                let entry = Entry { name, tld, value };
                proof {
                    lemma_entries_map_update(s0, i as int, entry);
                }
                self.entries.set(i, entry);
            },
            None => {
                let entry = Entry { name, tld, value };
                self.entries.push(entry);
                proof {
                    assert(self.entries@.drop_last() =~= s0);
                    assert(forall|j: int| 0 <= j < s0.len() ==> self.entries@[j] == s0[j]);
                }
            },
        }
    }

    /// Unbinds the key; without a binding the table stays as it is.
    pub fn remove(&mut self, name: &Vec<u8>, tld: &Vec<u8>)
        requires
            old(self).wf(),
        ensures
            final (self).wf(),
            final (self)@ == old(self)@.remove((name@, tld@)),
    {
        let ghost s0 = self.entries@;
        match self.find(name, tld) {
            Some(i) => {
                proof {
                    lemma_entries_map_remove(s0, i as int);
                }
                self.entries.remove(i);
                proof {
                    assert(self.entries@ =~= s0.remove(i as int));
                    assert(forall|a: int| #![trigger self.entries@[a]]
                        0 <= a < self.entries@.len() ==> self.entries@[a] == (if a < i {
                            s0[a]
                        } else {
                            s0[a + 1]
                        }));
                }
            },
            None => {
                proof {
                    lemma_entries_map_dom(s0, (name@, tld@));
                    assert(self@ =~= old(self)@.remove((name@, tld@)));
                }
            },
        }
    }
}

} // verus!
