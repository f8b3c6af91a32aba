//! An in-memory key-value store that counts its operations.

use vstd::prelude::*;
use vstd::string::StringExecFns;

use crate::table::StringMap;

verus! {

/// How many inserts, successful deletes and lookups a store has seen.
#[derive(Clone, Copy, Debug, Default, PartialEq, Eq, Structural)]
pub struct Stats {
    pub inserts: usize,
    pub deletes: usize,
    pub lookups: usize,
}

/// A string-to-string store.
pub struct Database {
    inner: StringMap<String>,
    stats: Stats,
}

/// The strings a map holds, by key.
pub open spec fn string_view(m: Map<Seq<char>, String>) -> Map<Seq<char>, Seq<char>> {
    m.map_values(|v: String| v@)
}

impl Database {
    /// The contents, by key.
    pub closed spec fn contents(&self) -> Map<Seq<char>, Seq<char>> {
        string_view(self.inner@)
    }

    /// The counters.
    pub closed spec fn counters(&self) -> Stats {
        self.stats
    }

    /// An empty store with all counters at zero.
    pub fn new() -> (db: Self)
        ensures
            db.contents() == Map::<Seq<char>, Seq<char>>::empty(),
            db.counters() == (Stats { inserts: 0, deletes: 0, lookups: 0 }),
    {
        let db = Database {
            inner: StringMap::new(),
            stats: Stats { inserts: 0, deletes: 0, lookups: 0 },
        };
        assert(db.contents() =~= Map::<Seq<char>, Seq<char>>::empty());
        db
    }

    /// Stores `value` under `key`, replacing what was there, and counts an insert.
    pub fn insert(&mut self, key: &str, value: &str)
        requires
            old(self).counters().inserts < usize::MAX,
        ensures
            final(self).contents() == old(self).contents().insert(key@, value@),
            final(self).counters() == (Stats {
                inserts: (old(self).counters().inserts + 1) as usize,
                ..old(self).counters()
            }),
    {
        let v = String::from_str(value);
        self.inner.insert(String::from_str(key), v);
        self.stats.inserts = self.stats.inserts + 1;
        assert(self.contents() =~= old(self).contents().insert(key@, value@));
    }

    /// The value under `key`, if any; counts a lookup either way.
    pub fn get(&mut self, key: &str) -> (r: Option<String>)
        requires
            old(self).counters().lookups < usize::MAX,
        ensures
            r is Some <==> old(self).contents().contains_key(key@),
            r matches Some(v) ==> v@ == old(self).contents()[key@],
            final(self).contents() == old(self).contents(),
            final(self).counters() == (Stats {
                lookups: (old(self).counters().lookups + 1) as usize,
                ..old(self).counters()
            }),
    {
        let value = match self.inner.get(key) {
            Some(v) => Some(v.clone()),
            None => None,
        };
        self.stats.lookups = self.stats.lookups + 1;
        value
    }

    /// Removes `key`; returns whether it was there, and counts a delete if so.
    pub fn delete(&mut self, key: &str) -> (removed: bool)
        requires
            old(self).counters().deletes < usize::MAX,
        ensures
            removed == old(self).contents().contains_key(key@),
            final(self).contents() == old(self).contents().remove(key@),
            final(self).counters() == (Stats {
                deletes: (old(self).counters().deletes + if removed {
                    1int
                } else {
                    0int
                }) as usize,
                ..old(self).counters()
            }),
    {
        let removed = self.inner.remove(key).is_some();
        if removed {
            self.stats.deletes = self.stats.deletes + 1;
        }
        assert(self.contents() =~= old(self).contents().remove(key@));
        removed
    }

    /// A copy of the counters.
    pub fn stats(&self) -> (s: Stats)
        ensures
            s == self.counters(),
    {
        self.stats
    }

    /// The keys, each once.
    pub fn keys(&self) -> (r: Vec<String>)
        ensures
            r@.len() == self.contents().len(),
            forall|i: int| 0 <= i < r@.len() ==> self.contents().contains_key(#[trigger] r@[i]@),
            forall|k: Seq<char>|
                self.contents().contains_key(k) ==> exists|i: int|
                    0 <= i < r@.len() && #[trigger] r@[i]@ == k,
    {
        let entries = self.inner.entries();
        let mut keys: Vec<String> = Vec::new();
        let mut i: usize = 0;
        while i < entries.len()
            invariant
                i <= entries@.len(),
                keys@.len() == i,
                forall|j: int| 0 <= j < i ==> #[trigger] keys@[j]@ == entries@[j].0@,
            decreases entries@.len() - i,
        {
            keys.push(entries[i].0.clone());
            i = i + 1;
        }
        proof {
            crate::table::lemma_map_of_contains(entries@);
            assert(self.contents().dom() =~= self.inner@.dom());
            assert forall|k: Seq<char>| self.contents().contains_key(k) implies exists|i: int|
                0 <= i < keys@.len() && #[trigger] keys@[i]@ == k by {
                let j = choose|j: int| 0 <= j < entries@.len() && #[trigger] entries@[j].0@ == k;
                assert(keys@[j]@ == k);
            }
            assert forall|i: int| 0 <= i < keys@.len() implies self.contents().contains_key(
                #[trigger] keys@[i]@,
            ) by {
                assert(keys@[i]@ == entries@[i].0@);
            }
        }
        keys
    }
}

} // verus!
