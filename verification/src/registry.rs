//! The column registry every table component shares: an append-only,
//! insertion-ordered mapping from column name to a stable zero-based index.

use vstd::prelude::*;

use crate::index_map::{
    entries_of, has_key, has_pair, index_map_contains_key, index_map_get, index_map_insert_new,
    index_map_keys, index_map_len, new_index_map,
};
use crate::specs::names_after_add;

verus! {

/// An ordered registry of column names. Name `i` of [`Registry::names`] owns
/// index `i`; indices are assigned in strict insertion order and are never
/// reassigned, and entries are never removed.
pub(crate) struct Registry {
    map: indexmap::IndexMap<String, usize>,
}

impl Registry {
    /// The registered names, in index order.
    pub(crate) closed spec fn names(&self) -> Seq<Seq<char>> {
        entries_of(self.map).map(|i: int, e: (Seq<char>, usize)| e.0)
    }

    /// Internal consistency: pair `i` of the map carries index `i`, and no
    /// name repeats.
    pub(crate) closed spec fn wf(&self) -> bool {
        &&& (forall|i: int|
            0 <= i < entries_of(self.map).len() ==> (#[trigger] entries_of(self.map)[i]).1 == i)
        &&& (forall|i: int, j: int|
            0 <= i < j < entries_of(self.map).len() ==> entries_of(self.map)[i].0 != entries_of(
                self.map,
            )[j].0)
    }

    proof fn lemma_key_lookup(&self, name: Seq<char>)
        requires
            self.wf(),
        ensures
            has_key(entries_of(self.map), name) == self.names().contains(name),
            forall|v: usize|
                has_pair(entries_of(self.map), name, v) ==> v < self.names().len()
                    && self.names()[v as int] == name && self.names().index_of(name) == v,
    {
        let es = entries_of(self.map);
        assert(self.names().len() == es.len());
        if has_key(es, name) {
            let i = choose|i: int| 0 <= i < es.len() && es[i].0 == name;
            assert(self.names()[i] == name);
        }
        if self.names().contains(name) {
            let i = choose|i: int| 0 <= i < self.names().len() && self.names()[i] == name;
            assert(es[i].0 == name);
        }
        assert forall|v: usize| has_pair(es, name, v) implies v < self.names().len()
            && self.names()[v as int] == name && self.names().index_of(name) == v by {
            let i = choose|i: int| 0 <= i < es.len() && es[i] == (name, v);
            assert(es[i].1 == i);
            assert(self.names()[v as int] == es[v as int].0);
            assert(self.names().contains(name));
            let j = self.names().index_of(name);
            assert(0 <= j < self.names().len() && self.names()[j] == name);
            if j != v {
                assert(es[j].0 == es[v as int].0);
            }
        }
    }

    /// Makes an empty registry.
    pub(crate) fn new() -> (r: Self)
        ensures
            r.wf(),
            r.names() == Seq::<Seq<char>>::empty(),
    {
        let r = Self { map: new_index_map() };
        proof {
            assert(r.names() =~= Seq::<Seq<char>>::empty());
        }
        r
    }

    /// The number of registered names.
    pub(crate) fn count(&self) -> (n: usize)
        ensures
            n == self.names().len(),
    {
        index_map_len(&self.map)
    }

    /// The registered names in index order, as owned strings.
    pub(crate) fn names_vec(&self) -> (r: Vec<String>)
        ensures
            r@.len() == self.names().len(),
            forall|i: int| 0 <= i < r@.len() ==> r@[i]@ == self.names()[i],
    {
        index_map_keys(&self.map)
    }

    /// Registers `name` at the next free index if absent; a no-op otherwise.
    pub(crate) fn add(&mut self, name: &str)
        requires
            old(self).wf(),
        ensures
            final(self).wf(),
            final(self).names() == names_after_add(old(self).names(), name@),
    {
        proof {
            self.lemma_key_lookup(name@);
        }
        if index_map_contains_key(&self.map, name) {
            return ;
        }
        let idx = index_map_len(&self.map);
        index_map_insert_new(&mut self.map, name, idx);
        proof {
            let old_es = entries_of(old(self).map);
            let es = entries_of(self.map);
            assert(es == old_es.push((name@, idx)));
            assert forall|i: int| 0 <= i < es.len() implies (#[trigger] es[i]).1 == i by {
                if i < old_es.len() {
                    assert(es[i] == old_es[i]);
                }
            }
            assert forall|i: int, j: int| 0 <= i < j < es.len() implies es[i].0 != es[j].0 by {
                if j < old_es.len() {
                    assert(es[i] == old_es[i] && es[j] == old_es[j]);
                } else {
                    assert(es[j].0 == name@);
                    assert(es[i] == old_es[i]);
                    assert(!has_key(old_es, name@));
                }
            }
            assert(final(self).names() =~= old(self).names().push(name@));
        }
    }

    /// The index `name` resolves to, if it was ever registered.
    pub(crate) fn lookup(&self, name: &str) -> (r: Option<usize>)
        requires
            self.wf(),
        ensures
            match r {
                Some(i) => i < self.names().len() && self.names()[i as int] == name@
                    && self.names().index_of(name@) == i,
                None => !self.names().contains(name@),
            },
    {
        proof {
            self.lemma_key_lookup(name@);
        }
        index_map_get(&self.map, name)
    }
}

} // verus!
