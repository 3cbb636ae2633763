//! A map keyed by trading-symbol text, kept as a list of distinct keys in insertion order.
use vstd::prelude::*;
use vstd::string::*;

verus! {

/// The map that a list of (key, value) entries stands for; later entries win.
pub open spec fn entries_map<V>(entries: Seq<(String, V)>) -> Map<Seq<char>, V>
    decreases entries.len(),
{
    if entries.len() == 0 {
        Map::empty()
    } else {
        entries_map(entries.drop_last()).insert(
            entries.last().0@,
            entries.last().1,
        )
    }
}

/// No key occurs twice among the entries.
pub open spec fn keys_distinct<V>(entries: Seq<(String, V)>) -> bool {
    forall|i: int, j: int|
        0 <= i < j < entries.len() ==> #[trigger] entries[i].0@ != #[trigger] entries[j].0@
}

/// A key occurs among the entries exactly when the map has it, and the map gives the
/// value stored with it.
pub proof fn lemma_entries_map_lookup<V>(entries: Seq<(String, V)>, key: Seq<char>)
    requires
        keys_distinct(entries),
    ensures
        entries_map(entries).contains_key(key) <==> exists|i: int|
            0 <= i < entries.len() && #[trigger] entries[i].0@ == key,
        forall|i: int|
            0 <= i < entries.len() && #[trigger] entries[i].0@ == key ==> entries_map(entries)[key]
                == entries[i].1,
    decreases entries.len(),
{
    if entries.len() > 0 {
        let prefix = entries.drop_last();
        assert(keys_distinct(prefix)) by {
            assert forall|i: int, j: int| 0 <= i < j < prefix.len() implies #[trigger] prefix[i].0@
                != #[trigger] prefix[j].0@ by {
                assert(prefix[i] == entries[i] && prefix[j] == entries[j]);
            }
        }
        lemma_entries_map_lookup(prefix, key);
        let n = entries.len() - 1;
        if entries_map(entries).contains_key(key) {
            if key == entries.last().0@ {
                assert(entries[n].0@ == key);
            } else {
                let i = choose|i: int| 0 <= i < prefix.len() && #[trigger] prefix[i].0@ == key;
                assert(entries[i] == prefix[i]);
            }
        }
        assert forall|i: int| 0 <= i < entries.len() && #[trigger] entries[i].0@ == key implies entries_map(
            entries,
        )[key] == entries[i].1 by {
            if i < n {
                assert(entries[i] == prefix[i]);
                assert(entries[i].0@ != entries[n].0@);
            }
        }
        assert forall|i: int| 0 <= i < entries.len() && #[trigger] entries[i].0@ == key implies entries_map(
            entries,
        ).contains_key(key) by {
            if i < n {
                assert(entries[i] == prefix[i]);
            }
        }
    }
}

/// Replacing the value of an existing key updates the map at that key only.
pub proof fn lemma_entries_map_update<V>(entries: Seq<(String, V)>, i: int, key: String, value: V)
    requires
        keys_distinct(entries),
        0 <= i < entries.len(),
        entries[i].0@ == key@,
    ensures
        entries_map(entries.update(i, (key, value))) == entries_map(entries).insert(key@, value),
    decreases entries.len(),
{
    let updated = entries.update(i, (key, value));
    let n = entries.len() - 1;
    if i == n {
        assert(updated.drop_last() =~= entries.drop_last());
        assert(entries_map(updated) =~= entries_map(entries).insert(key@, value));
    } else {
        let prefix = entries.drop_last();
        assert(keys_distinct(prefix)) by {
            assert forall|a: int, b: int| 0 <= a < b < prefix.len() implies #[trigger] prefix[a].0@
                != #[trigger] prefix[b].0@ by {
                assert(prefix[a] == entries[a] && prefix[b] == entries[b]);
            }
        }
        assert(prefix[i] == entries[i]);
        lemma_entries_map_update(prefix, i, key, value);
        assert(updated.drop_last() =~= prefix.update(i, (key, value)));
        assert(entries[i].0@ != entries[n].0@);
        assert(entries_map(updated) =~= entries_map(entries).insert(key@, value));
    }
}

/// Two entry lists with the same keys in the same places give maps with the same keys.
pub proof fn lemma_entries_map_same_keys<V>(a: Seq<(String, V)>, b: Seq<(String, V)>)
    requires
        a.len() == b.len(),
        forall|i: int| 0 <= i < a.len() ==> #[trigger] a[i].0@ == b[i].0@,
    ensures
        entries_map(a).dom() == entries_map(b).dom(),
    decreases a.len(),
{
    if a.len() > 0 {
        let (pa, pb) = (a.drop_last(), b.drop_last());
        assert forall|i: int| 0 <= i < pa.len() implies #[trigger] pa[i].0@ == pb[i].0@ by {
            assert(pa[i] == a[i] && pb[i] == b[i]);
        }
        lemma_entries_map_same_keys(pa, pb);
        assert(a[a.len() - 1].0@ == b[b.len() - 1].0@);
        assert(entries_map(a).dom() =~= entries_map(b).dom());
    }
}

/// A map from symbol text to values.
#[derive(Debug)]
pub struct SymbolMap<V> {
    entries: Vec<(String, V)>,
}

impl<V> View for SymbolMap<V> {
    type V = Map<Seq<char>, V>;

    closed spec fn view(&self) -> Map<Seq<char>, V> {
        entries_map(self.entries@)
    }
}

impl<V: Clone> Clone for SymbolMap<V> {
    /// A copy with the same keys, each value copied with `V::clone`.
    fn clone(&self) -> (r: Self)
        ensures
            r@.dom() == self@.dom(),
            forall|k: Seq<char>| #[trigger] r@.contains_key(k) ==> cloned::<V>(self@[k], r@[k]),
    {
        proof {
            use_type_invariant(self);
        }
        let mut entries: Vec<(String, V)> = Vec::new();
        let n = self.entries.len();
        let mut i: usize = 0;
        while i < n
            invariant
                n == self.entries@.len(),
                i <= n,
                entries@.len() == i,
                keys_distinct(self.entries@),
                forall|j: int| 0 <= j < i ==> #[trigger] entries@[j].0@ == self.entries@[j].0@,
                forall|j: int| 0 <= j < i ==> cloned::<V>(self.entries@[j].1, #[trigger] entries@[j].1),
            decreases n - i,
        {
            let key = self.entries[i].0.clone();
            let value = self.entries[i].1.clone();
            entries.push((key, value));
            i = i + 1;
        }
        proof {
            lemma_entries_map_same_keys(entries@, self.entries@);
            assert forall|a: int, b: int| 0 <= a < b < entries@.len() implies #[trigger] entries@[a].0@
                != #[trigger] entries@[b].0@ by {
                assert(self.entries@[a].0@ != self.entries@[b].0@);
            }
            assert forall|k: Seq<char>| #[trigger] entries_map(entries@).contains_key(k) implies cloned::<V>(
                entries_map(self.entries@)[k],
                entries_map(entries@)[k],
            ) by {
                lemma_entries_map_lookup(entries@, k);
                lemma_entries_map_lookup(self.entries@, k);
                let j = choose|j: int| 0 <= j < entries@.len() && #[trigger] entries@[j].0@ == k;
                assert(self.entries@[j].0@ == k);
            }
        }
        SymbolMap { entries }
    }
}

impl<V> SymbolMap<V> {
    #[verifier::type_invariant]
    spec fn distinct(self) -> bool {
        keys_distinct(self.entries@)
    }

    /// An empty map.
    pub fn new() -> (r: SymbolMap<V>)
        ensures
            r@ == Map::<Seq<char>, V>::empty(),
    {
        SymbolMap { entries: Vec::new() }
    }

    /// The number of keys.
    pub fn len(&self) -> (r: usize)
        ensures
            r == self@.len(),
    {
        proof {
            use_type_invariant(self);
            self.lemma_len();
        }
        self.entries.len()
    }

    proof fn lemma_len(&self)
        requires
            keys_distinct(self.entries@),
        ensures
            self@.dom().finite(),
            self@.len() == self.entries@.len(),
    {
        lemma_len_of_entries(self.entries@);
    }

    /// The position of a key among the entries, if it is there.
    fn position(&self, key: &str) -> (r: Option<usize>)
        ensures
            match r {
                Some(i) => i < self.entries@.len() && self.entries@[i as int].0@ == key@,
                None => forall|i: int|
                    0 <= i < self.entries@.len() ==> #[trigger] self.entries@[i].0@ != key@,
            },
    {
        let wanted = String::from_str(key);
        let n = self.entries.len();
        let mut i: usize = 0;
        while i < n
            invariant
                n == self.entries@.len(),
                wanted@ == key@,
                i <= n,
                forall|j: int| 0 <= j < i ==> #[trigger] self.entries@[j].0@ != key@,
            decreases n - i,
        {
            if self.entries[i].0 == wanted {
                return Some(i);
            }
            i = i + 1;
        }
        None
    }

    /// The value stored under `key`.
    pub fn get(&self, key: &str) -> (r: Option<&V>)
        ensures
            match r {
                Some(v) => self@.contains_key(key@) && *v == self@[key@],
                None => !self@.contains_key(key@),
            },
    {
        proof {
            use_type_invariant(self);
            lemma_entries_map_lookup(self.entries@, key@);
        }
        match self.position(key) {
            Some(i) => Some(&self.entries[i].1),
            None => None,
        }
    }

    /// Whether a value is stored under `key`.
    pub fn contains_key(&self, key: &str) -> (r: bool)
        ensures
            r == self@.contains_key(key@),
    {
        proof {
            use_type_invariant(self);
            lemma_entries_map_lookup(self.entries@, key@);
        }
        self.position(key).is_some()
    }

    /// Stores `value` under `key`, replacing what was stored there.
    pub fn insert(&mut self, key: String, value: V)
        ensures
            final(self)@ == old(self)@.insert(key@, value),
    {
        proof {
            use_type_invariant(&*self);
        }
        let found = self.position(key.as_str());
        let ghost before = self.entries@;
        let mut entries: Vec<(String, V)> = Vec::new();
        std::mem::swap(&mut entries, &mut self.entries);
        assert(entries@ == before);
        match found {
            Some(i) => {
                proof {
                    lemma_entries_map_update(before, i as int, key, value);
                }
                entries.set(i, (key, value));
                assert forall|a: int, b: int|
                    0 <= a < b < entries@.len() implies #[trigger] entries@[a].0@
                    != #[trigger] entries@[b].0@ by {
                    assert(before[a].0@ != before[b].0@);
                }
            },
            None => {
                entries.push((key, value));
                assert(entries@.drop_last() =~= before);
                assert forall|a: int, b: int|
                    0 <= a < b < entries@.len() implies #[trigger] entries@[a].0@
                    != #[trigger] entries@[b].0@ by {
                    if b < before.len() {
                        assert(before[a].0@ != before[b].0@);
                    } else {
                        assert(before[a].0@ != key@);
                    }
                }
            },
        }
        self.entries = entries;
    }
}

/// With distinct keys, the map has as many keys as there are entries.
pub proof fn lemma_len_of_entries<V>(entries: Seq<(String, V)>)
    requires
        keys_distinct(entries),
    ensures
        entries_map(entries).dom().finite(),
        entries_map(entries).len() == entries.len(),
    decreases entries.len(),
{
    if entries.len() > 0 {
        let prefix = entries.drop_last();
        assert(keys_distinct(prefix)) by {
            assert forall|i: int, j: int| 0 <= i < j < prefix.len() implies #[trigger] prefix[i].0@
                != #[trigger] prefix[j].0@ by {
                assert(prefix[i] == entries[i] && prefix[j] == entries[j]);
            }
        }
        lemma_len_of_entries(prefix);
        lemma_entries_map_lookup(prefix, entries.last().0@);
        let n = entries.len() - 1;
        if entries_map(prefix).contains_key(entries.last().0@) {
            let i = choose|i: int| 0 <= i < prefix.len() && #[trigger] prefix[i].0@ == entries.last().0@;
            assert(entries[i] == prefix[i]);
            assert(entries[i].0@ != entries[n].0@);
        }
    }
}


/// After a value is stored under a key, the key reads as that value and every other key
/// reads as before.
pub proof fn law_read_after_write<V>(m: Map<Seq<char>, V>, key: Seq<char>, value: V, other: Seq<char>)
    ensures
        m.insert(key, value).contains_key(key),
        m.insert(key, value)[key] == value,
        other != key ==> m.insert(key, value).contains_key(other) == m.contains_key(other),
        other != key && m.contains_key(other) ==> m.insert(key, value)[other] == m[other],
{
}

} // verus!
