//! A map keyed by text, kept in the order in which the keys came.

use vstd::prelude::*;

use crate::text::str_eq;

verus! {

/// Values under distinct text keys.
pub struct TextMap<V> {
    entries: Vec<(String, V)>,
}

/// Whether `key` stands at place `i`.
spec fn key_at<V>(entries: Seq<(String, V)>, key: Seq<char>, i: int) -> bool {
    0 <= i < entries.len() && entries[i].0@ == key
}

/// Whether `key` stands somewhere.
spec fn has_key<V>(entries: Seq<(String, V)>, key: Seq<char>) -> bool {
    exists|i: int| key_at(entries, key, i)
}

/// Whether no key stands twice.
spec fn distinct<V>(entries: Seq<(String, V)>) -> bool {
    forall|i: int, j: int|
        0 <= i < entries.len() && 0 <= j < entries.len() && entries[i].0@ == entries[j].0@ ==> i
            == j
}

/// The entries as a map.
spec fn as_map<V>(entries: Seq<(String, V)>) -> Map<Seq<char>, V> {
    Map::new(
        |k: Seq<char>| has_key(entries, k),
        |k: Seq<char>| entries[choose|i: int| key_at(entries, k, i)].1,
    )
}

impl<V> View for TextMap<V> {
    type V = Map<Seq<char>, V>;

    closed spec fn view(&self) -> Map<Seq<char>, V> {
        as_map(self.entries@)
    }
}

/// Whether `names` lists the keys of a map, each once.
pub open spec fn lists_keys<V>(names: Seq<Seq<char>>, map: Map<Seq<char>, V>) -> bool {
    &&& names.no_duplicates()
    &&& forall|k: Seq<char>| #[trigger] names.contains(k) <==> map.dom().contains(k)
}

proof fn lemma_entry<V>(entries: Seq<(String, V)>, i: int)
    requires
        distinct(entries),
        0 <= i < entries.len(),
    ensures
        as_map(entries).dom().contains(entries[i].0@),
        as_map(entries)[entries[i].0@] == entries[i].1,
{
    assert(key_at(entries, entries[i].0@, i));
    let j = choose|j: int| key_at(entries, entries[i].0@, j);
    assert(key_at(entries, entries[i].0@, j));
}

impl<V> TextMap<V> {
    #[verifier::type_invariant]
    spec fn keys_distinct(self) -> bool {
        distinct(self.entries@)
    }

    /// The keys in the order in which they came.
    pub closed spec fn names(&self) -> Seq<Seq<char>> {
        self.entries@.map_values(|e: (String, V)| e.0@)
    }

    /// The empty map.
    pub fn new() -> (map: Self)
        ensures
            map@ == Map::<Seq<char>, V>::empty(),
    {
        let map = TextMap { entries: Vec::new() };
        assert(map@ =~= Map::<Seq<char>, V>::empty());
        map
    }

    fn place(&self, key: &str) -> (at: Option<usize>)
        ensures
            match at {
                Some(i) => key_at(self.entries@, key@, i as int),
                None => !has_key(self.entries@, key@),
            },
    {
        let mut i: usize = 0;
        while i < self.entries.len()
            invariant
                i <= self.entries@.len(),
                forall|k: int| 0 <= k < i ==> self.entries@[k].0@ != key@,
            decreases self.entries@.len() - i,
        {
            if str_eq(self.entries[i].0.as_str(), key) {
                return Some(i);
            }
            i = i + 1;
        }
        None
    }

    /// How many keys there are.
    pub fn len(&self) -> (n: usize)
        ensures
            n == self@.dom().len(),
            self@.dom().finite(),
            n == self.names().len(),
            lists_keys(self.names(), self@),
    {
        proof {
            use_type_invariant(self);
            lemma_len(self.entries@);
            let names = self.names();
            assert forall|k: Seq<char>| #[trigger]
                names.contains(k) <==> self@.dom().contains(k) by {
                if names.contains(k) {
                    let i = choose|i: int| 0 <= i < names.len() && names[i] == k;
                    assert(key_at(self.entries@, k, i));
                }
                if self@.dom().contains(k) {
                    let i = choose|i: int| key_at(self.entries@, k, i);
                    assert(names[i] == k);
                }
            }
        }
        self.entries.len()
    }

    /// The value under `key`, if there is one.
    pub fn get(&self, key: &str) -> (value: Option<&V>)
        ensures
            match value {
                Some(v) => self@.dom().contains(key@) && self@[key@] == *v,
                None => !self@.dom().contains(key@),
            },
    {
        proof {
            use_type_invariant(self);
        }
        match self.place(key) {
            Some(i) => {
                proof {
                    lemma_entry(self.entries@, i as int);
                }
                Some(&self.entries[i].1)
            },
            None => None,
        }
    }

    /// Puts `value` under `key`, in place of what was there.
    pub fn insert(&mut self, key: String, value: V)
        ensures
            final(self)@ == old(self)@.insert(key@, value),
    {
        proof {
            use_type_invariant(&*self);
        }
        let ghost before = self.entries@;
        match self.place(key.as_str()) {
            Some(i) => {
                let mut entries: Vec<(String, V)> = Vec::new();
                std::mem::swap(&mut entries, &mut self.entries);
                entries.set(i, (key, value));
                proof {
                    lemma_replaced(before, entries@, i as int);
                }
                self.entries = entries;
            },
            None => {
                let mut entries: Vec<(String, V)> = Vec::new();
                std::mem::swap(&mut entries, &mut self.entries);
                entries.push((key, value));
                proof {
                    assert(entries@.drop_last() =~= before);
                    lemma_pushed(before, entries@);
                }
                self.entries = entries;
            },
        }
    }

    /// Takes `key` out, with its value if there is one.
    pub fn remove(&mut self, key: &str) -> (value: Option<V>)
        ensures
            final(self)@ == old(self)@.remove(key@),
            match value {
                Some(v) => old(self)@.dom().contains(key@) && old(self)@[key@] == v,
                None => !old(self)@.dom().contains(key@),
            },
    {
        proof {
            use_type_invariant(&*self);
        }
        let ghost before = self.entries@;
        match self.place(key) {
            Some(i) => {
                let mut entries: Vec<(String, V)> = Vec::new();
                std::mem::swap(&mut entries, &mut self.entries);
                let pair = entries.remove(i);
                proof {
                    lemma_removed(before, entries@, i as int);
                    lemma_entry(before, i as int);
                }
                self.entries = entries;
                Some(pair.1)
            },
            None => {
                assert(self@ =~= old(self)@.remove(key@));
                None
            },
        }
    }

    /// The key and the value at place `i`.
    pub fn entry(&self, i: usize) -> (pair: Option<(&str, &V)>)
        ensures
            match pair {
                Some(p) => i < self@.dom().len() && self@.dom().contains(p.0@) && self@[p.0@]
                    == *p.1 && p.0@ == self.names()[i as int],
                None => i >= self@.dom().len(),
            },
    {
        proof {
            use_type_invariant(self);
            lemma_len(self.entries@);
        }
        if i < self.entries.len() {
            proof {
                lemma_entry(self.entries@, i as int);
            }
            Some((self.entries[i].0.as_str(), &self.entries[i].1))
        } else {
            None
        }
    }
}

proof fn lemma_len<V>(entries: Seq<(String, V)>)
    requires
        distinct(entries),
    ensures
        as_map(entries).dom().finite(),
        as_map(entries).dom().len() == entries.len(),
    decreases entries.len(),
{
    if entries.len() == 0 {
        assert(as_map(entries).dom() =~= Set::<Seq<char>>::empty());
    } else {
        let rest = entries.drop_last();
        lemma_len(rest);
        assert(entries =~= rest.push(entries.last()));
        lemma_pushed(rest, entries);
    }
}

proof fn lemma_pushed<V>(before: Seq<(String, V)>, after: Seq<(String, V)>)
    requires
        distinct(before),
        after.len() == before.len() + 1,
        after.drop_last() == before,
        distinct(after) || !has_key(before, after.last().0@),
    ensures
        distinct(after),
        !has_key(before, after.last().0@),
        as_map(after) == as_map(before).insert(after.last().0@, after.last().1),
{
    let n = before.len() as int;
    let name = after.last().0@;
    assert(forall|i: int| 0 <= i < n ==> after[i] == before[i]) by {
        assert(forall|i: int| 0 <= i < n ==> after.drop_last()[i] == after[i]);
    }
    if distinct(after) {
        assert forall|i: int| !key_at(before, name, i) by {
            if key_at(before, name, i) {
                assert(after[i].0@ == after[n].0@);
            }
        }
    }
    assert(distinct(after)) by {
        assert forall|i: int, j: int|
            0 <= i < after.len() && 0 <= j < after.len() && after[i].0@ == after[j].0@ implies i
            == j by {
            if i == n && j < n {
                assert(key_at(before, name, j));
            }
            if j == n && i < n {
                assert(key_at(before, name, i));
            }
        }
    }
    assert forall|k: Seq<char>| has_key(after, k) == (has_key(before, k) || k == name) by {
        if has_key(after, k) {
            let i = choose|i: int| key_at(after, k, i);
            if i < n {
                assert(key_at(before, k, i));
            }
        }
        if has_key(before, k) {
            let i = choose|i: int| key_at(before, k, i);
            assert(key_at(after, k, i));
        }
        if k == name {
            assert(key_at(after, k, n));
        }
    }
    assert forall|k: Seq<char>| has_key(after, k) implies as_map(after)[k] == as_map(
        before,
    ).insert(name, after.last().1)[k] by {
        let i = choose|i: int| key_at(after, k, i);
        lemma_entry(after, i);
        if i < n {
            lemma_entry(before, i);
        }
    }
    assert(as_map(after) =~= as_map(before).insert(name, after.last().1));
}

proof fn lemma_replaced<V>(before: Seq<(String, V)>, after: Seq<(String, V)>, at: int)
    requires
        distinct(before),
        0 <= at < before.len(),
        after == before.update(at, after[at]),
        after[at].0@ == before[at].0@,
    ensures
        distinct(after),
        as_map(after) == as_map(before).insert(after[at].0@, after[at].1),
{
    assert forall|i: int| 0 <= i < before.len() implies after[i].0@ == before[i].0@ by {}
    assert forall|k: Seq<char>| has_key(after, k) == has_key(before, k) by {
        if has_key(after, k) {
            let i = choose|i: int| key_at(after, k, i);
            assert(key_at(before, k, i));
        }
        if has_key(before, k) {
            let i = choose|i: int| key_at(before, k, i);
            assert(key_at(after, k, i));
        }
    }
    assert(key_at(before, before[at].0@, at));
    assert forall|k: Seq<char>| has_key(after, k) implies as_map(after)[k] == as_map(
        before,
    ).insert(after[at].0@, after[at].1)[k] by {
        let i = choose|i: int| key_at(after, k, i);
        lemma_entry(after, i);
        lemma_entry(before, i);
    }
    assert(as_map(after) =~= as_map(before).insert(after[at].0@, after[at].1));
}

proof fn lemma_removed<V>(before: Seq<(String, V)>, after: Seq<(String, V)>, at: int)
    requires
        distinct(before),
        0 <= at < before.len(),
        after == before.remove(at),
    ensures
        distinct(after),
        as_map(after) == as_map(before).remove(before[at].0@),
{
    let name = before[at].0@;
    assert forall|i: int| 0 <= i < after.len() implies after[i] == before[if i < at {
        i
    } else {
        i + 1
    }] by {}
    assert forall|k: Seq<char>| has_key(after, k) == (has_key(before, k) && k != name) by {
        if has_key(after, k) {
            let i = choose|i: int| key_at(after, k, i);
            let j = if i < at {
                i
            } else {
                i + 1
            };
            assert(key_at(before, k, j));
        }
        if has_key(before, k) && k != name {
            let j = choose|j: int| key_at(before, k, j);
            let i = if j < at {
                j
            } else {
                j - 1
            };
            assert(key_at(after, k, i));
        }
    }
    assert forall|k: Seq<char>| has_key(after, k) implies as_map(after)[k] == as_map(
        before,
    ).remove(name)[k] by {
        let i = choose|i: int| key_at(after, k, i);
        lemma_entry(after, i);
        lemma_entry(
            before,
            if i < at {
                i
            } else {
                i + 1
            },
        );
    }
    assert(as_map(after) =~= as_map(before).remove(name));
}

} // verus!
