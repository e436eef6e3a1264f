//! Maps with texts for keys.

use vstd::prelude::*;

use crate::text::same;

verus! {

/// A map with texts for keys, in the order in which the keys came in.
pub struct TextMap<V> {
    entries: Vec<(String, V)>,
}

/// Whether an entry has this key.
pub open spec fn has_key<V>(entries: Seq<(String, V)>, key: Seq<char>, at: int) -> bool {
    0 <= at < entries.len() && entries[at].0@ == key
}

/// The map that entries stand for.
pub open spec fn as_map<V>(entries: Seq<(String, V)>) -> Map<Seq<char>, V> {
    Map::new(
        |key: Seq<char>| exists|at: int| has_key(entries, key, at),
        |key: Seq<char>| entries[choose|at: int| has_key(entries, key, at)].1,
    )
}

/// Whether no key occurs twice.
pub open spec fn distinct<V>(entries: Seq<(String, V)>) -> bool {
    forall|i: int, j: int|
        0 <= i < j < entries.len() ==> (#[trigger] entries[i]).0@ != (#[trigger] entries[j]).0@
}

impl<V> View for TextMap<V> {
    type V = Map<Seq<char>, V>;

    closed spec fn view(&self) -> Map<Seq<char>, V> {
        as_map(self.entries@)
    }
}

/// An entry of a map without a key twice is what the map holds.
proof fn lemma_entry<V>(entries: Seq<(String, V)>, at: int)
    requires
        distinct(entries),
        0 <= at < entries.len(),
    ensures
        as_map(entries).dom().contains(entries[at].0@),
        as_map(entries)[entries[at].0@] == entries[at].1,
{
    let key = entries[at].0@;
    assert(has_key(entries, key, at));
    let found = choose|i: int| has_key(entries, key, i);
    assert(has_key(entries, key, found));
    assert(found == at);
}

impl<V> TextMap<V> {
    /// No key occurs twice.
    #[verifier::type_invariant]
    spec fn inv(self) -> bool {
        distinct(self.entries@)
    }

    /// The entries, in the order in which their keys came in.
    pub closed spec fn listed(self) -> Seq<(String, V)> {
        self.entries@
    }

    /// A map without entries.
    pub fn new() -> (r: TextMap<V>)
        ensures
            r@ == Map::<Seq<char>, V>::empty(),
            r.listed() == Seq::<(String, V)>::empty(),
    {
        let r = TextMap { entries: Vec::new() };
        proof {
            assert(r@ =~= Map::<Seq<char>, V>::empty());
        }
        r
    }

    /// Where the entry with this key stands.
    fn position(&self, key: &str) -> (r: Option<usize>)
        ensures
            match r {
                Some(at) => has_key(self.entries@, key@, at as int),
                None => forall|i: int| 0 <= i < self.entries@.len() ==> (#[trigger] self.entries@[i]).0@
                    != key@,
            },
    {
        for i in 0..self.entries.len()
            invariant
                forall|k: int| 0 <= k < i ==> (#[trigger] self.entries@[k]).0@ != key@,
        {
            if same(self.entries[i].0.as_str(), key) {
                return Some(i);
            }
        }
        None
    }

    /// Whether there is an entry with this key.
    pub fn contains_key(&self, key: &str) -> (r: bool)
        ensures
            r <==> self@.dom().contains(key@),
    {
        match self.position(key) {
            Some(at) => true,
            None => false,
        }
    }

    /// The value of a key.
    pub fn get(&self, key: &str) -> (r: Option<&V>)
        ensures
            match r {
                Some(v) => self@.dom().contains(key@) && *v == self@[key@],
                None => !self@.dom().contains(key@),
            },
    {
        match self.position(key) {
            Some(at) => {
                proof {
                    use_type_invariant(self);
                    lemma_entry(self.entries@, at as int);
                }
                Some(&self.entries[at].1)
            },
            None => None,
        }
    }

    /// The number of entries.
    pub fn len(&self) -> (r: usize)
        ensures
            r == self.listed().len(),
            distinct(self.listed()),
            self@ == as_map(self.listed()),
    {
        proof {
            use_type_invariant(self);
        }
        self.entries.len()
    }

    /// The entry at an index.
    pub fn entry(&self, at: usize) -> (r: (&String, &V))
        requires
            at < self.listed().len(),
        ensures
            *r.0 == self.listed()[at as int].0,
            *r.1 == self.listed()[at as int].1,
            self@.dom().contains(r.0@),
            self@[r.0@] == *r.1,
    {
        proof {
            use_type_invariant(self);
            lemma_entry(self.entries@, at as int);
        }
        (&self.entries[at].0, &self.entries[at].1)
    }

    /// Gives a key a value, in place of the one that it had.
    pub fn insert(&mut self, key: String, value: V)
        ensures
            final(self)@ == old(self)@.insert(key@, value),
    {
        proof {
            use_type_invariant(&*self);
        }
        let found = self.position(key.as_str());
        let mut entries: Vec<(String, V)> = Vec::new();
        std::mem::swap(&mut entries, &mut self.entries);
        let ghost before = entries@;
        let ghost text = key@;
        match found {
            Some(at) => {
                entries.set(at, (key, value));
            },
            None => {
                entries.push((key, value));
            },
        }
        proof {
            lemma_insert(before, entries@, text, value, match found {
                Some(at) => at as int,
                None => before.len() as int,
            });
        }
        self.entries = entries;
    }

    /// Removes a key and its value.
    pub fn remove(&mut self, key: &str)
        ensures
            final(self)@ == old(self)@.remove(key@),
    {
        proof {
            use_type_invariant(&*self);
        }
        let found = self.position(key);
        let mut entries: Vec<(String, V)> = Vec::new();
        std::mem::swap(&mut entries, &mut self.entries);
        let ghost before = entries@;
        match found {
            Some(at) => {
                entries.remove(at);
                proof {
                    lemma_remove(before, entries@, at as int);
                }
            },
            None => {
                proof {
                    assert(!as_map(before).dom().contains(key@)) by {
                        if as_map(before).dom().contains(key@) {
                            let at = choose|at: int| has_key(before, key@, at);
                            assert(has_key(before, key@, at));
                        }
                    }
                    assert(as_map(before).remove(key@) =~= as_map(before));
                }
            },
        }
        self.entries = entries;
    }
}

/// What an entry more, or one in place of another, does to a map.
proof fn lemma_insert<V>(
    before: Seq<(String, V)>,
    after: Seq<(String, V)>,
    key: Seq<char>,
    value: V,
    at: int,
)
    requires
        distinct(before),
        0 <= at <= before.len(),
        at < before.len() ==> before[at].0@ == key,
        at == before.len() ==> forall|i: int| 0 <= i < before.len() ==> (#[trigger] before[i]).0@ != key,
        after.len() == (if at < before.len() { before.len() as int } else { at + 1 }),
        after[at].0@ == key,
        after[at].1 == value,
        forall|i: int| 0 <= i < before.len() && i != at ==> #[trigger] after[i] == before[i],
    ensures
        distinct(after),
        as_map(after) == as_map(before).insert(key, value),
{
    assert forall|i: int| 0 <= i < before.len() implies (#[trigger] after[i]).0@ == before[i].0@ by {}
    assert(distinct(after)) by {
        assert forall|i: int, j: int| 0 <= i < j < after.len() implies (#[trigger] after[i]).0@ != (
        #[trigger] after[j]).0@ by {
            assert(before[i].0@ == after[i].0@);
        }
    }
    lemma_entry(after, at);
    assert forall|k: Seq<char>| #[trigger]
        as_map(after).dom().contains(k) <==> as_map(before).insert(key, value).dom().contains(k) by {
        if as_map(after).dom().contains(k) && k != key {
            let i = choose|i: int| has_key(after, k, i);
            assert(has_key(before, k, i));
        }
        if as_map(before).dom().contains(k) {
            let i = choose|i: int| has_key(before, k, i);
            assert(has_key(after, k, i));
        }
    }
    assert forall|k: Seq<char>| #[trigger] as_map(after).dom().contains(k) implies as_map(after)[k]
        == as_map(before).insert(key, value)[k] by {
        if k != key {
            let i = choose|i: int| has_key(after, k, i);
            assert(has_key(after, k, i));
            lemma_entry(after, i);
            lemma_entry(before, i);
        }
    }
    assert(as_map(after) =~= as_map(before).insert(key, value));
}

/// What an entry less does to a map.
proof fn lemma_remove<V>(before: Seq<(String, V)>, after: Seq<(String, V)>, at: int)
    requires
        distinct(before),
        0 <= at < before.len(),
        after == before.remove(at),
    ensures
        distinct(after),
        as_map(after) == as_map(before).remove(before[at].0@),
{
    let key = before[at].0@;
    assert forall|i: int, j: int| 0 <= i < j < after.len() implies (#[trigger] after[i]).0@ != (
    #[trigger] after[j]).0@ by {
        let a = if i < at { i } else { i + 1 };
        let b = if j < at { j } else { j + 1 };
        assert(after[i] == before[a] && after[j] == before[b]);
    }
    assert forall|k: Seq<char>| #[trigger]
        as_map(after).dom().contains(k) <==> as_map(before).remove(key).dom().contains(k) by {
        if as_map(after).dom().contains(k) {
            let i = choose|i: int| has_key(after, k, i);
            let a = if i < at { i } else { i + 1 };
            assert(after[i] == before[a]);
            assert(has_key(before, k, a));
        }
        if as_map(before).dom().contains(k) && k != key {
            let a = choose|a: int| has_key(before, k, a);
            let i = if a < at { a } else { a - 1 };
            assert(after[i] == before[a]);
            assert(has_key(after, k, i));
        }
    }
    assert forall|k: Seq<char>| #[trigger] as_map(after).dom().contains(k) implies as_map(after)[k]
        == as_map(before).remove(key)[k] by {
        let i = choose|i: int| has_key(after, k, i);
        let a = if i < at { i } else { i + 1 };
        assert(has_key(after, k, i) && after[i] == before[a]);
        lemma_entry(after, i);
        lemma_entry(before, a);
    }
    assert(as_map(after) =~= as_map(before).remove(key));
}

} // verus!
