//! The process registry: a mapping from server identifier to the handle
//! token of the live child process registered under it.
//!
//! The registry is modelled as a `Map<Seq<char>, u64>` from identifier to
//! handle token; the implementation keeps a vector of entries with pairwise
//! distinct identifiers.

use vstd::prelude::*;

verus! {

/// One registration: a server identifier and its process handle token.
pub struct RegistryEntry {
    pub id: String,
    pub handle: u64,
}

/// Some entry of `s` carries identifier `k`.
pub open spec fn has_id(s: Seq<RegistryEntry>, k: Seq<char>) -> bool {
    exists|i: int| 0 <= i < s.len() && s[i].id@ == k
}

/// The index of an entry of `s` carrying identifier `k`.
pub open spec fn index_of_id(s: Seq<RegistryEntry>, k: Seq<char>) -> int {
    choose|i: int| 0 <= i < s.len() && s[i].id@ == k
}

/// No two entries of `s` carry the same identifier.
pub open spec fn distinct_ids(s: Seq<RegistryEntry>) -> bool {
    forall|i: int, j: int| 0 <= i < j < s.len() ==> s[i].id@ != s[j].id@
}

/// The mapping that a sequence of entries represents.
pub open spec fn map_of(s: Seq<RegistryEntry>) -> Map<Seq<char>, u64> {
    Map::new(
        |k: Seq<char>| has_id(s, k),
        |k: Seq<char>| s[index_of_id(s, k)].handle,
    )
}

/// With pairwise distinct identifiers, an entry's index is the unique
/// witness for its identifier.
proof fn lemma_index(s: Seq<RegistryEntry>, k: Seq<char>, i: int)
    requires
        distinct_ids(s),
        0 <= i < s.len(),
        s[i].id@ == k,
    ensures
        has_id(s, k),
        index_of_id(s, k) == i,
        map_of(s).contains_key(k),
        map_of(s)[k] == s[i].handle,
{
    assert(has_id(s, k));
    let j = index_of_id(s, k);
    assert(0 <= j < s.len() && s[j].id@ == k);
    if j < i {
        assert(s[j].id@ != s[i].id@);
    } else if i < j {
        assert(s[i].id@ != s[j].id@);
    }
}

/// Removing the entry at `j` removes exactly its identifier from the map.
proof fn lemma_remove_entry(s: Seq<RegistryEntry>, j: int)
    requires
        distinct_ids(s),
        0 <= j < s.len(),
    ensures
        distinct_ids(s.remove(j)),
        map_of(s.remove(j)) == map_of(s).remove(s[j].id@),
{
    let t = s.remove(j);
    let k0 = s[j].id@;
    s.remove_ensures(j);
    assert forall|p: int, q: int| 0 <= p < q < t.len() implies t[p].id@ != t[q].id@ by {
        let p0: int = if p < j { p } else { p + 1 };
        let q0: int = if q < j { q } else { q + 1 };
        assert(t[p] == s[p0]);
        assert(t[q] == s[q0]);
    }
    assert forall|k: Seq<char>| has_id(t, k) implies has_id(s, k) && k != k0 by {
        let i = choose|i: int| 0 <= i < t.len() && t[i].id@ == k;
        let i0: int = if i < j { i } else { i + 1 };
        assert(t[i] == s[i0]);
        if k == k0 {
            lemma_index(s, k0, j);
            lemma_index(s, k0, i0);
        }
    }
    assert forall|k: Seq<char>| has_id(s, k) && k != k0 implies has_id(t, k) by {
        let i = choose|i: int| 0 <= i < s.len() && s[i].id@ == k;
        if i != j {
            let i1: int = if i < j { i } else { i - 1 };
            assert(t[i1] == s[i]);
        }
    }
    assert forall|k: Seq<char>| has_id(t, k) implies map_of(t)[k] == map_of(s).remove(k0)[k] by {
        let i = index_of_id(t, k);
        assert(0 <= i < t.len() && t[i].id@ == k);
        let i0: int = if i < j { i } else { i + 1 };
        assert(t[i] == s[i0]);
        lemma_index(t, k, i);
        lemma_index(s, k, i0);
    }
    assert(map_of(t) =~= map_of(s).remove(k0));
}

/// Appending an entry under a fresh identifier adds exactly that
/// identifier to the map.
proof fn lemma_push_entry(s: Seq<RegistryEntry>, e: RegistryEntry)
    requires
        distinct_ids(s),
        !has_id(s, e.id@),
    ensures
        distinct_ids(s.push(e)),
        map_of(s.push(e)) == map_of(s).insert(e.id@, e.handle),
{
    let t = s.push(e);
    assert forall|p: int, q: int| 0 <= p < q < t.len() implies t[p].id@ != t[q].id@ by {
        if q == s.len() {
            assert(t[p] == s[p]);
            assert(t[q] == e);
        } else {
            assert(t[p] == s[p]);
            assert(t[q] == s[q]);
        }
    }
    assert forall|k: Seq<char>| has_id(t, k) implies has_id(s, k) || k == e.id@ by {
        let i = choose|i: int| 0 <= i < t.len() && t[i].id@ == k;
        if i < s.len() {
            assert(t[i] == s[i]);
        } else {
            assert(t[i] == e);
        }
    }
    assert forall|k: Seq<char>| has_id(s, k) implies has_id(t, k) by {
        let i = choose|i: int| 0 <= i < s.len() && s[i].id@ == k;
        assert(t[i] == s[i]);
    }
    assert(t[s.len() as int] == e);
    lemma_index(t, e.id@, s.len() as int);
    assert forall|k: Seq<char>| has_id(t, k) && k != e.id@ implies map_of(t)[k] == map_of(s)[k] by {
        let i = choose|i: int| 0 <= i < s.len() && s[i].id@ == k;
        assert(t[i] == s[i]);
        lemma_index(t, k, i);
        lemma_index(s, k, i);
    }
    assert(map_of(t) =~= map_of(s).insert(e.id@, e.handle));
}

/// Mapping from server identifier to live process handle token.
/// Holds at most one entry per identifier.
pub struct ProcessRegistry {
    entries: Vec<RegistryEntry>,
}

impl ProcessRegistry {
    /// The identifiers stored are pairwise distinct.
    pub closed spec fn wf(self) -> bool {
        distinct_ids(self.entries@)
    }

    /// The identifier-to-handle mapping this registry holds.
    pub closed spec fn contents(self) -> Map<Seq<char>, u64> {
        map_of(self.entries@)
    }

    /// An empty registry.
    pub fn new() -> (r: Self)
        ensures
            r.wf(),
            r.contents() == Map::<Seq<char>, u64>::empty(),
    {
        let r = ProcessRegistry { entries: Vec::new() };
        proof {
            assert(r.contents() =~= Map::<Seq<char>, u64>::empty());
        }
        r
    }

    /// The handle registered under `id`, if any.
    pub fn lookup(&self, id: &String) -> (r: Option<u64>)
        requires
            self.wf(),
        ensures
            match r {
                Some(h) => self.contents().contains_key(id@) && h == self.contents()[id@],
                None => !self.contents().contains_key(id@),
            },
    {
        let n = self.entries.len();
        let mut j: usize = 0;
        while j < n
            invariant
                self.wf(),
                n == self.entries@.len(),
                j <= n,
                forall|k: int| 0 <= k < j ==> self.entries@[k].id@ != id@,
            decreases n - j,
        {
            if self.entries[j].id == *id {
                proof {
                    lemma_index(self.entries@, id@, j as int);
                }
                return Some(self.entries[j].handle);
            }
            j = j + 1;
        }
        proof {
            assert(!has_id(self.entries@, id@));
        }
        None
    }

    /// Removes the entry registered under `id`, returning its handle;
    /// leaves the registry unchanged when `id` is not registered.
    pub fn remove(&mut self, id: &String) -> (r: Option<u64>)
        requires
            old(self).wf(),
        ensures
            final(self).wf(),
            match r {
                Some(h) => old(self).contents().contains_key(id@)
                    && h == old(self).contents()[id@]
                    && final(self).contents() == old(self).contents().remove(id@),
                None => !old(self).contents().contains_key(id@)
                    && *final(self) == *old(self),
            },
    {
        let ghost s0 = self.entries@;
        let n = self.entries.len();
        let mut j: usize = 0;
        while j < n
            invariant
                s0 == old(self).entries@,
                self.entries@ == s0,
                *self == *old(self),
                distinct_ids(s0),
                n == s0.len(),
                j <= n,
                forall|k: int| 0 <= k < j ==> s0[k].id@ != id@,
            decreases n - j,
        {
            if self.entries[j].id == *id {
                proof {
                    lemma_index(s0, id@, j as int);
                    lemma_remove_entry(s0, j as int);
                }
                let e = self.entries.remove(j);
                return Some(e.handle);
            }
            j = j + 1;
        }
        proof {
            assert(!has_id(s0, id@));
        }
        None
    }

    /// Registers `handle` under `id`, replacing any previous entry for `id`.
    pub fn insert(&mut self, id: &String, handle: u64)
        requires
            old(self).wf(),
        ensures
            final(self).wf(),
            final(self).contents() == old(self).contents().insert(id@, handle),
    {
        let _removed = self.remove(id);
        let ghost s1 = self.entries@;
        let entry = RegistryEntry { id: id.clone(), handle };
        proof {
            assert(!map_of(s1).contains_key(id@));
            assert(!has_id(s1, id@));
            lemma_push_entry(s1, entry);
        }
        self.entries.push(entry);
        proof {
            assert(old(self).contents().remove(id@).insert(id@, handle)
                =~= old(self).contents().insert(id@, handle));
        }
    }
}

} // verus!
