//! A table from task ids to numbers.

use crate::text;
use vstd::prelude::*;
use vstd::string::*;

verus! {

/// One row of a table.
struct Entry {
    key: String,
    value: u64,
}

/// A table from task ids to numbers. An id has at most one number.
pub struct Registry {
    entries: Vec<Entry>,
}

impl Registry {
    spec fn key(self, i: int) -> Seq<char> {
        self.entries@[i].key@
    }

    /// No id stands in the table twice.
    #[verifier::type_invariant]
    spec fn unique(self) -> bool {
        forall|i: int, j: int|
            0 <= i < self.entries@.len() && 0 <= j < self.entries@.len() && #[trigger] self.key(i)
                == #[trigger] self.key(j) ==> i == j
    }

    spec fn holds_at(self, key: Seq<char>, i: int) -> bool {
        0 <= i < self.entries@.len() && self.key(i) == key
    }

    /// The table as a map.
    pub closed spec fn map(self) -> Map<Seq<char>, u64> {
        Map::new(
            |k: Seq<char>| exists|i: int| self.holds_at(k, i),
            |k: Seq<char>| self.entries@[choose|i: int| self.holds_at(k, i)].value,
        )
    }
}

impl View for Registry {
    type V = Map<Seq<char>, u64>;

    open spec fn view(&self) -> Map<Seq<char>, u64> {
        self.map()
    }
}

/// What has been put into a table under an id is found there, and only there something changes.
pub proof fn inserted_is_found(m: Map<Seq<char>, u64>, key: Seq<char>, value: u64)
    ensures
        lookup(m.insert(key, value), key) == Some(value),
        forall|other: Seq<char>|
            other != key ==> #[trigger] lookup(m.insert(key, value), other) == lookup(m, other),
{
}

/// What has been taken out of a table is not found any more, and only there something changes.
pub proof fn removed_is_gone(m: Map<Seq<char>, u64>, key: Seq<char>)
    ensures
        lookup(m.remove(key), key) is None,
        forall|other: Seq<char>|
            other != key ==> #[trigger] lookup(m.remove(key), other) == lookup(m, other),
{
}

/// What a table holds under a key.
pub open spec fn lookup(m: Map<Seq<char>, u64>, key: Seq<char>) -> Option<u64> {
    if m.dom().contains(key) {
        Some(m[key])
    } else {
        None
    }
}

impl Registry {
    /// A table with nothing in it.
    pub fn new() -> (r: Self)
        ensures
            r@ == Map::<Seq<char>, u64>::empty(),
    {
        let r = Registry { entries: Vec::new() };
        assert(r@ =~= Map::<Seq<char>, u64>::empty());
        r
    }

    proof fn map_at(self, i: int)
        requires
            self.unique(),
            0 <= i < self.entries@.len(),
        ensures
            self@.dom().contains(self.key(i)),
            self@[self.key(i)] == self.entries@[i].value,
    {
        let k = self.key(i);
        assert(self.holds_at(k, i));
        let j = choose|j: int| self.holds_at(k, j);
        assert(self.holds_at(k, j));
        assert(self.key(i) == self.key(j));
    }

    /// The position of an id.
    fn find(&self, key: &str) -> (r: Option<usize>)
        ensures
            match r {
                Some(i) => self.holds_at(key@, i as int),
                None => forall|i: int| !self.holds_at(key@, i),
            },
    {
        let n: usize = self.entries.len();
        let mut i: usize = 0;
        while i < n
            invariant
                n == self.entries@.len(),
                i <= n,
                forall|j: int| 0 <= j < i ==> !self.holds_at(key@, j),
            decreases n - i,
        {
            if text::text_eq(self.entries[i].key.as_str(), key) {
                assert(self.holds_at(key@, i as int));
                return Some(i);
            }
            i += 1;
        }
        None
    }

    /// The number of an id.
    pub fn get(&self, key: &str) -> (r: Option<u64>)
        ensures
            r == lookup(self@, key@),
    {
        proof {
            use_type_invariant(&*self);
        }
        match self.find(key) {
            Some(i) => {
                proof {
                    self.map_at(i as int);
                }
                Some(self.entries[i].value)
            },
            None => None,
        }
    }

    /// Gives an id a number, in place of the one that it had.
    pub fn insert(&mut self, key: &str, value: u64)
        ensures
            final(self)@ == old(self)@.insert(key@, value),
    {
        proof {
            use_type_invariant(&*self);
        }
        let found = self.find(key);
        let mut entries: Vec<Entry> = Vec::new();
        std::mem::swap(&mut entries, &mut self.entries);
        let ghost before = entries@;
        match found {
            Some(i) => {
                let entry = Entry { key: key.to_owned(), value };
                entries.set(i, entry);
            },
            None => {
                entries.push(Entry { key: key.to_owned(), value });
            },
        }
        proof {
            let next = Registry { entries };
            let prev = *old(self);
            assert(next.unique()) by {
                assert forall|i: int, j: int|
                    0 <= i < next.entries@.len() && 0 <= j < next.entries@.len()
                        && #[trigger] next.key(i) == #[trigger] next.key(j) implies i == j by {
                    if i < before.len() && j < before.len() {
                        assert(prev.key(i) == next.key(i));
                        assert(prev.key(j) == next.key(j));
                    } else if i < before.len() {
                        assert(!prev.holds_at(key@, i));
                        assert(prev.key(i) == next.key(i));
                    } else if j < before.len() {
                        assert(!prev.holds_at(key@, j));
                        assert(prev.key(j) == next.key(j));
                    }
                }
            }
            let at = match found {
                Some(i) => i as int,
                None => before.len() as int,
            };
            assert(next.holds_at(key@, at));
            registry_insert(prev, next, key@, value);
        }
        self.entries = entries;
    }

    /// Takes an id out of the table, and gives the number that it had.
    pub fn remove(&mut self, key: &str) -> (r: Option<u64>)
        ensures
            r == lookup(old(self)@, key@),
            final(self)@ == old(self)@.remove(key@),
    {
        proof {
            use_type_invariant(&*self);
        }
        let found = self.find(key);
        match found {
            Some(i) => {
                let mut entries: Vec<Entry> = Vec::new();
                std::mem::swap(&mut entries, &mut self.entries);
                let entry = entries.remove(i);
                proof {
                    let prev = *old(self);
                    let next = Registry { entries };
                    prev.map_at(i as int);
                    registry_remove(prev, next, key@, i as int);
                }
                self.entries = entries;
                Some(entry.value)
            },
            None => {
                assert(self@ =~= old(self)@.remove(key@));
                None
            },
        }
    }
}

proof fn registry_insert(prev: Registry, next: Registry, key: Seq<char>, value: u64)
    requires
        prev.unique(),
        next.unique(),
        next.entries@.len() >= prev.entries@.len(),
        exists|i: int| #[trigger] next.holds_at(key, i) && next.entries@[i].value == value,
        forall|i: int|
            0 <= i < prev.entries@.len() && prev.key(i) != key ==> #[trigger] next.entries@[i]
                == prev.entries@[i],
        forall|i: int|
            0 <= i < next.entries@.len() && #[trigger] next.key(i) != key ==> i
                < prev.entries@.len() && prev.key(i) == next.key(i),
    ensures
        next@ == prev@.insert(key, value),
{
    let target = prev@.insert(key, value);
    let at = choose|i: int| #[trigger] next.holds_at(key, i) && next.entries@[i].value == value;
    next.map_at(at);
    assert forall|k: Seq<char>| next@.dom().contains(k) == target.dom().contains(k) by {
        if k != key {
            if next@.dom().contains(k) {
                let i = choose|i: int| next.holds_at(k, i);
                assert(next.holds_at(k, i));
                assert(prev.holds_at(k, i));
            }
            if prev@.dom().contains(k) {
                let i = choose|i: int| prev.holds_at(k, i);
                assert(prev.holds_at(k, i));
                assert(next.entries@[i] == prev.entries@[i]);
                assert(next.holds_at(k, i));
            }
        }
    }
    assert forall|k: Seq<char>| #[trigger] next@.dom().contains(k) implies next@[k] == target[k] by {
        if k != key {
            let i = choose|i: int| next.holds_at(k, i);
            assert(next.holds_at(k, i));
            assert(prev.holds_at(k, i));
            next.map_at(i);
            prev.map_at(i);
            assert(next.entries@[i] == prev.entries@[i]);
        }
    }
    assert(next@ =~= target);
}

proof fn registry_remove(prev: Registry, next: Registry, key: Seq<char>, at: int)
    requires
        prev.unique(),
        prev.holds_at(key, at),
        next.entries@ == prev.entries@.remove(at),
    ensures
        next.unique(),
        next@ == prev@.remove(key),
{
    let target = prev@.remove(key);
    assert forall|i: int, j: int|
        0 <= i < next.entries@.len() && 0 <= j < next.entries@.len() && #[trigger] next.key(i)
            == #[trigger] next.key(j) implies i == j by {
        let a = if i < at {
            i
        } else {
            i + 1
        };
        let b = if j < at {
            j
        } else {
            j + 1
        };
        assert(prev.key(a) == next.key(i));
        assert(prev.key(b) == next.key(j));
    }
    assert forall|k: Seq<char>| next@.dom().contains(k) == target.dom().contains(k) by {
        if next@.dom().contains(k) {
            let i = choose|i: int| next.holds_at(k, i);
            assert(next.holds_at(k, i));
            let a = if i < at {
                i
            } else {
                i + 1
            };
            assert(prev.holds_at(k, a));
            if k == key {
                assert(prev.key(a) == prev.key(at));
            }
        }
        if target.dom().contains(k) {
            let a = choose|i: int| prev.holds_at(k, i);
            assert(prev.holds_at(k, a));
            let i = if a < at {
                a
            } else {
                a - 1
            };
            assert(next.holds_at(k, i));
        }
    }
    assert forall|k: Seq<char>| #[trigger] next@.dom().contains(k) implies next@[k] == target[k] by {
        let i = choose|i: int| next.holds_at(k, i);
        assert(next.holds_at(k, i));
        let a = if i < at {
            i
        } else {
            i + 1
        };
        assert(prev.holds_at(k, a));
        next.map_at(i);
        prev.map_at(a);
    }
    assert(next@ =~= target);
}

} // verus!
