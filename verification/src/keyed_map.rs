//! A map from string keys to values, kept as a list of entries with
//! distinct keys in insertion order.

use vstd::prelude::*;
use crate::text::str_eq;

verus! {

/// The map that a list of entries denotes, later entries taking precedence.
pub open spec fn entries_map<V: View>(s: Seq<(String, V)>) -> Map<Seq<char>, V::V>
    decreases s.len(),
{
    if s.len() == 0 {
        Map::empty()
    } else {
        entries_map(s.drop_last()).insert(s.last().0@, s.last().1@)
    }
}

pub open spec fn keys_distinct<V>(s: Seq<(String, V)>) -> bool {
    forall|i: int, j: int| 0 <= i < j < s.len() ==> (#[trigger] s[i]).0@ != (#[trigger] s[j]).0@
}

/// The key of each entry is in the map, with the entry's value.
pub proof fn lemma_entries_map_index<V: View>(s: Seq<(String, V)>, i: int)
    requires
        keys_distinct(s),
        0 <= i < s.len(),
    ensures
        entries_map(s).contains_key(s[i].0@),
        entries_map(s)[s[i].0@] == s[i].1@,
    decreases s.len(),
{
    if i < s.len() - 1 {
        let rest = s.drop_last();
        assert(rest[i] == s[i]);
        lemma_entries_map_index(rest, i);
        assert(s[i].0@ != s[s.len() - 1].0@);
    }
}

/// A key is in the map exactly when some entry has it.
pub proof fn lemma_entries_map_domain<V: View>(s: Seq<(String, V)>, k: Seq<char>)
    ensures
        entries_map(s).contains_key(k) <==> exists|i: int| 0 <= i < s.len() && (#[trigger] s[i]).0@ == k,
    decreases s.len(),
{
    if s.len() > 0 {
        let rest = s.drop_last();
        lemma_entries_map_domain(rest, k);
        if entries_map(s).contains_key(k) {
            if k == s.last().0@ {
                assert(s[s.len() - 1].0@ == k);
            } else {
                let i = choose|i: int| 0 <= i < rest.len() && (#[trigger] rest[i]).0@ == k;
                assert(s[i] == rest[i]);
            }
        } else {
            assert forall|i: int| 0 <= i < s.len() implies (#[trigger] s[i]).0@ != k by {
                if i < s.len() - 1 {
                    assert(s[i] == rest[i]);
                }
            }
        }
    }
}

/// A string-keyed map that remembers insertion order.
pub struct KeyedMap<V> {
    entries: Vec<(String, V)>,
}

impl<V: View> View for KeyedMap<V> {
    type V = Map<Seq<char>, V::V>;

    closed spec fn view(&self) -> Map<Seq<char>, V::V> {
        entries_map(self.entries@)
    }
}

impl<V> KeyedMap<V> {
    #[verifier::type_invariant]
    closed spec fn distinct(self) -> bool {
        keys_distinct(self.entries@)
    }
}

impl<V: View> KeyedMap<V> {
    /// The empty map.
    pub fn new() -> (m: Self)
        ensures
            m@ == Map::<Seq<char>, V::V>::empty(),
    {
        KeyedMap { entries: Vec::new() }
    }

    fn position(&self, key: &str) -> (r: Option<usize>)
        ensures
            r matches Some(i) ==> i < self.entries@.len() && self.entries@[i as int].0@ == key@,
            r is None ==> forall|i: int| 0 <= i < self.entries@.len() ==> (#[trigger] self.entries@[i]).0@ != key@,
    {
        let mut i: usize = 0;
        while i < self.entries.len()
            invariant
                i <= self.entries@.len(),
                forall|j: int| 0 <= j < i ==> (#[trigger] self.entries@[j]).0@ != key@,
            decreases self.entries@.len() - i,
        {
            if str_eq(self.entries[i].0.as_str(), key) {
                return Some(i);
            }
            i = i + 1;
        }
        None
    }

    /// The value stored under `key`, if any.
    pub fn get(&self, key: &str) -> (r: Option<&V>)
        ensures
            r is Some == self@.contains_key(key@),
            r matches Some(v) ==> v@ == self@[key@],
    {
        proof {
            use_type_invariant(self);
            lemma_entries_map_domain(self.entries@, key@);
        }
        match self.position(key) {
            Some(i) => {
                proof {
                    lemma_entries_map_index(self.entries@, i as int);
                }
                Some(&self.entries[i].1)
            }
            None => None,
        }
    }

    /// Whether `key` is present.
    pub fn contains_key(&self, key: &str) -> (b: bool)
        ensures
            b == self@.contains_key(key@),
    {
        self.get(key).is_some()
    }

    /// Stores `value` under `key`, replacing any earlier value.
    pub fn insert(&mut self, key: String, value: V)
        ensures
            final(self)@ == old(self)@.insert(key@, value@),
    {
        proof {
            use_type_invariant(&*self);
        }
        let ghost k = key@;
        let ghost v = value@;
        match self.position(key.as_str()) {
            Some(i) => {
                let ghost before = self.entries@;
                let mut entries = Vec::new();
                std::mem::swap(&mut entries, &mut self.entries);
                entries.set(i, (key, value));
                proof {
                    let after = entries@;
                    assert(keys_distinct(after)) by {
                        assert forall|a: int, b: int| 0 <= a < b < after.len() implies (#[trigger] after[a]).0@ != (#[trigger] after[b]).0@ by {
                            assert(before[a].0@ != before[b].0@);
                        }
                    }
                    assert forall|q: Seq<char>| #[trigger] entries_map(after).contains_key(q) == entries_map(before).insert(k, v).contains_key(q) by {
                        lemma_entries_map_domain(after, q);
                        lemma_entries_map_domain(before, q);
                        if q != k && entries_map(before).contains_key(q) {
                            let j = choose|j: int| 0 <= j < before.len() && (#[trigger] before[j]).0@ == q;
                            assert(after[j].0@ == q);
                        }
                        if q == k {
                            assert(after[i as int].0@ == q);
                        }
                    }
                    assert forall|q: Seq<char>| #[trigger] entries_map(after).contains_key(q) implies entries_map(after)[q] == entries_map(before).insert(k, v)[q] by {
                        lemma_entries_map_domain(after, q);
                        let j = choose|j: int| 0 <= j < after.len() && (#[trigger] after[j]).0@ == q;
                        lemma_entries_map_index(after, j);
                        if j != i {
                            lemma_entries_map_index(before, j);
                        }
                    }
                    assert(entries_map(after) =~= entries_map(before).insert(k, v));
                }
                self.entries = entries;
            }
            None => {
                let ghost before = self.entries@;
                let mut entries = Vec::new();
                std::mem::swap(&mut entries, &mut self.entries);
                entries.push((key, value));
                proof {
                    assert(entries@.drop_last() =~= before);
                }
                self.entries = entries;
            }
        }
    }

    /// The keys, in insertion order.
    pub fn keys(&self) -> (v: Vec<&String>)
        ensures
            v@.len() == self@.dom().len(),
            forall|i: int| 0 <= i < v@.len() ==> self@.contains_key((#[trigger] v@[i])@),
            forall|k: Seq<char>| self@.contains_key(k) ==> exists|i: int| 0 <= i < v@.len() && (#[trigger] v@[i])@ == k,
            forall|i: int, j: int| 0 <= i < j < v@.len() ==> (#[trigger] v@[i])@ != (#[trigger] v@[j])@,
    {
        proof {
            use_type_invariant(self);
        }
        let mut v: Vec<&String> = Vec::new();
        for i in 0..self.entries.len()
            invariant
                keys_distinct(self.entries@),
                v@.len() == i,
                forall|j: int| 0 <= j < i ==> (#[trigger] v@[j])@ == self.entries@[j].0@,
        {
            v.push(&self.entries[i].0);
        }
        proof {
            let s = self.entries@;
            assert forall|i: int| 0 <= i < v@.len() implies self@.contains_key((#[trigger] v@[i])@) by {
                lemma_entries_map_index(s, i);
            }
            assert forall|k: Seq<char>| self@.contains_key(k) implies exists|i: int| 0 <= i < v@.len() && (#[trigger] v@[i])@ == k by {
                lemma_entries_map_domain(s, k);
                let i = choose|i: int| 0 <= i < s.len() && (#[trigger] s[i]).0@ == k;
                assert(v@[i]@ == k);
            }
            lemma_domain_len(s);
        }
        v
    }

    /// Adds every entry of `other`, its values replacing those of `self`
    /// under the same key.
    pub fn extend(&mut self, other: KeyedMap<V>)
        ensures
            final(self)@ == old(self)@.union_prefer_right(other@),
    {
        proof {
            use_type_invariant(&other);
        }
        let ghost orig = other.entries@;
        let ghost start = self@;
        let KeyedMap { entries: mut rest } = other;
        proof {
            assert(orig.subrange(orig.len() as int, orig.len() as int) =~= Seq::<(String, V)>::empty());
            assert(start.union_prefer_right(Map::<Seq<char>, V::V>::empty()) =~= start);
            assert(orig.take(orig.len() as int) =~= orig);
        }
        while rest.len() > 0
            invariant
                keys_distinct(orig),
                rest@ == orig.take(rest@.len() as int),
                rest@.len() <= orig.len(),
                self@ == start.union_prefer_right(entries_map(orig.subrange(rest@.len() as int, orig.len() as int))),
            decreases rest@.len(),
        {
            let ghost n = rest@.len() as int;
            let (k, v) = rest.pop().unwrap();
            proof {
                assert(orig[n - 1] == (k, v));
                let tail = orig.subrange(n, orig.len() as int);
                assert(orig.subrange(n - 1, orig.len() as int) =~= seq![(k, v)] + tail);
                assert forall|i: int| 0 <= i < tail.len() implies (#[trigger] tail[i]).0@ != k@ by {
                    assert(tail[i] == orig[n + i]);
                }
                lemma_entries_map_prepend((k, v), tail);
                assert(rest@ =~= orig.take(n - 1));
            }
            let ghost before = self@;
            self.insert(k, v);
            proof {
                let tail = orig.subrange(n, orig.len() as int);
                assert(self@ =~= start.union_prefer_right(entries_map(tail).insert(k@, v@)));
            }
        }
        proof {
            assert(orig.subrange(0, orig.len() as int) =~= orig);
        }
    }

    /// Removes the entry under `key` and returns its value, if there was one.
    pub fn remove(&mut self, key: &str) -> (r: Option<V>)
        ensures
            final(self)@ == old(self)@.remove(key@),
            r is Some == old(self)@.contains_key(key@),
            r matches Some(v) ==> v@ == old(self)@[key@],
    {
        proof {
            use_type_invariant(&*self);
            lemma_entries_map_domain(self.entries@, key@);
        }
        match self.position(key) {
            Some(i) => {
                let ghost before = self.entries@;
                proof {
                    lemma_entries_map_index(before, i as int);
                    lemma_entries_map_remove(before, i as int);
                }
                let mut entries = Vec::new();
                std::mem::swap(&mut entries, &mut self.entries);
                let (_k, v) = entries.remove(i);
                assert(entries@ =~= before.remove(i as int));
                self.entries = entries;
                Some(v)
            }
            None => {
                assert(self@.remove(key@) =~= self@);
                None
            }
        }
    }

    /// The number of keys.
    pub fn len(&self) -> (n: usize)
        ensures
            n == self@.dom().len(),
    {
        proof {
            use_type_invariant(self);
            lemma_domain_len(self.entries@);
        }
        self.entries.len()
    }
}

impl KeyedMap<String> {
    /// A copy of this map.
    pub fn duplicate(&self) -> (r: Self)
        ensures
            r@ == self@,
    {
        let mut r: KeyedMap<String> = KeyedMap::new();
        for i in 0..self.entries.len()
            invariant
                r@ == entries_map(self.entries@.take(i as int)),
        {
            let (k, v) = &self.entries[i];
            proof {
                assert(self.entries@.take(i + 1).drop_last() =~= self.entries@.take(i as int));
            }
            r.insert(k.clone(), v.clone());
        }
        assert(self.entries@.take(self.entries@.len() as int) =~= self.entries@);
        r
    }
}

/// Putting an entry with a new key in front adds that key.
pub proof fn lemma_entries_map_prepend<V: View>(e: (String, V), t: Seq<(String, V)>)
    requires
        forall|i: int| 0 <= i < t.len() ==> (#[trigger] t[i]).0@ != e.0@,
    ensures
        entries_map(seq![e] + t) == entries_map(t).insert(e.0@, e.1@),
    decreases t.len(),
{
    let s = seq![e] + t;
    if t.len() == 0 {
        assert(s.drop_last() =~= Seq::<(String, V)>::empty());
        assert(s.last() == e);
        assert(entries_map(s.drop_last()) == Map::<Seq<char>, V::V>::empty());
        assert(entries_map(t) == Map::<Seq<char>, V::V>::empty());
        assert(entries_map(s) =~= entries_map(t).insert(e.0@, e.1@));
    } else {
        let t0 = t.drop_last();
        assert(s.drop_last() =~= seq![e] + t0);
        assert forall|i: int| 0 <= i < t0.len() implies (#[trigger] t0[i]).0@ != e.0@ by {
            assert(t0[i] == t[i]);
        }
        lemma_entries_map_prepend(e, t0);
        assert(t.last().0@ != e.0@) by {
            assert(t[t.len() - 1].0@ != e.0@);
        }
        assert(s.last() == t.last());
        assert(entries_map(s) == entries_map(seq![e] + t0).insert(t.last().0@, t.last().1@));
        assert(entries_map(t) == entries_map(t0).insert(t.last().0@, t.last().1@));
        assert(entries_map(s) =~= entries_map(t).insert(e.0@, e.1@));
    }
}

/// Taking out one entry of a list with distinct keys takes its key out of
/// the map and keeps the keys distinct.
pub proof fn lemma_entries_map_remove<V: View>(s: Seq<(String, V)>, i: int)
    requires
        keys_distinct(s),
        0 <= i < s.len(),
    ensures
        keys_distinct(s.remove(i)),
        entries_map(s.remove(i)) == entries_map(s).remove(s[i].0@),
    decreases s.len(),
{
    let k = s[i].0@;
    let r = s.remove(i);
    assert forall|a: int, b: int| 0 <= a < b < r.len() implies (#[trigger] r[a]).0@ != (#[trigger] r[b]).0@ by {
        let a0 = if a < i { a } else { a + 1 };
        let b0 = if b < i { b } else { b + 1 };
        assert(r[a] == s[a0]);
        assert(r[b] == s[b0]);
    }
    let rest = s.drop_last();
    if i == s.len() - 1 {
        assert(r =~= rest);
        lemma_entries_map_domain(rest, k);
        assert(!entries_map(rest).contains_key(k)) by {
            if entries_map(rest).contains_key(k) {
                let j = choose|j: int| 0 <= j < rest.len() && (#[trigger] rest[j]).0@ == k;
                assert(s[j].0@ != s[i].0@);
            }
        }
        assert(entries_map(s).remove(k) =~= entries_map(rest));
    } else {
        assert(rest[i] == s[i]);
        lemma_entries_map_remove(rest, i);
        assert(r.drop_last() =~= rest.remove(i));
        assert(r.last() == s.last());
        assert(s.last().0@ != k) by {
            assert(s[s.len() - 1].0@ != s[i].0@);
        }
        assert(entries_map(r) =~= entries_map(s).remove(k));
    }
}

/// With distinct keys, the map has one key per entry.
pub proof fn lemma_domain_len<V: View>(s: Seq<(String, V)>)
    requires
        keys_distinct(s),
    ensures
        entries_map(s).dom().finite(),
        entries_map(s).dom().len() == s.len(),
    decreases s.len(),
{
    if s.len() > 0 {
        let rest = s.drop_last();
        lemma_domain_len(rest);
        lemma_entries_map_domain(rest, s.last().0@);
        assert(!entries_map(rest).contains_key(s.last().0@)) by {
            if entries_map(rest).contains_key(s.last().0@) {
                let i = choose|i: int| 0 <= i < rest.len() && (#[trigger] rest[i]).0@ == s.last().0@;
                assert(s[i].0@ != s[s.len() - 1].0@);
            }
        }
    }
}

} // verus!
