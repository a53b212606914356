//! A map keyed by text that keeps each key once: later writes of a key replace
//! its value.

use vstd::prelude::*;
use crate::text::{eq_ignoring_ascii_case, same_ignoring_ascii_case};

verus! {

/// The map that writing the pairs of `s` in order builds: a later pair for a key
/// replaces an earlier one.
pub open spec fn pairs_map<V>(s: Seq<(String, V)>) -> Map<Seq<char>, V>
    decreases s.len(),
{
    if s.len() == 0 {
        Map::empty()
    } else {
        pairs_map(s.drop_last()).insert(s.last().0@, s.last().1)
    }
}

/// No two pairs of `s` have the same key.
pub open spec fn keys_distinct<V>(s: Seq<(String, V)>) -> bool {
    forall|i: int, j: int| 0 <= i < j < s.len() ==> s[i].0@ != s[j].0@
}

proof fn lemma_absent<V>(s: Seq<(String, V)>, k: Seq<char>)
    requires
        forall|i: int| 0 <= i < s.len() ==> s[i].0@ != k,
    ensures
        !pairs_map(s).contains_key(k),
    decreases s.len(),
{
    if s.len() > 0 {
        lemma_absent(s.drop_last(), k);
    }
}

proof fn lemma_at<V>(s: Seq<(String, V)>, i: int)
    requires
        keys_distinct(s),
        0 <= i < s.len(),
    ensures
        pairs_map(s).contains_key(s[i].0@),
        pairs_map(s)[s[i].0@] == s[i].1,
    decreases s.len(),
{
    if i < s.len() - 1 {
        lemma_at(s.drop_last(), i);
    }
}

proof fn lemma_present<V>(s: Seq<(String, V)>, k: Seq<char>)
    requires
        pairs_map(s).contains_key(k),
    ensures
        exists|i: int| 0 <= i < s.len() && s[i].0@ == k,
{
    if !(exists|i: int| 0 <= i < s.len() && s[i].0@ == k) {
        lemma_absent(s, k);
    }
}

proof fn lemma_len<V>(s: Seq<(String, V)>)
    requires
        keys_distinct(s),
    ensures
        pairs_map(s).dom().finite(),
        pairs_map(s).len() == s.len(),
    decreases s.len(),
{
    if s.len() > 0 {
        let r = s.drop_last();
        lemma_len(r);
        assert forall|i: int| 0 <= i < r.len() implies r[i].0@ != s.last().0@ by {
            assert(s[i] == r[i]);
        }
        lemma_absent(r, s.last().0@);
    }
}

proof fn lemma_replace<V>(s: Seq<(String, V)>, i: int, p: (String, V))
    requires
        keys_distinct(s),
        0 <= i < s.len(),
        p.0@ == s[i].0@,
    ensures
        keys_distinct(s.update(i, p)),
        pairs_map(s.update(i, p)) == pairs_map(s).insert(p.0@, p.1),
{
    let t = s.update(i, p);
    assert(keys_distinct(t));
    assert forall|k: Seq<char>| #[trigger] pairs_map(t).contains_key(k) == pairs_map(s).insert(p.0@, p.1).contains_key(k)
        && (pairs_map(t).contains_key(k) ==> pairs_map(t)[k] == pairs_map(s).insert(p.0@, p.1)[k]) by {
        if k == p.0@ {
            lemma_at(t, i);
        } else if exists|j: int| 0 <= j < s.len() && s[j].0@ == k {
            let j = choose|j: int| 0 <= j < s.len() && s[j].0@ == k;
            lemma_at(t, j);
            lemma_at(s, j);
        } else {
            lemma_absent(s, k);
            lemma_absent(t, k);
        }
    }
    assert(pairs_map(t) =~= pairs_map(s).insert(p.0@, p.1));
}

/// `m` without every key that equals `key` when ASCII case is ignored.
pub open spec fn without_like<V>(m: Map<Seq<char>, V>, key: Seq<char>) -> Map<Seq<char>, V> {
    Map::new(|k: Seq<char>| m.contains_key(k) && !same_ignoring_ascii_case(k, key), |k: Seq<char>| m[k])
}

/// The pairs of `s` whose keys do not equal `key` when ASCII case is ignored.
pub open spec fn keep_unlike<V>(s: Seq<(String, V)>, key: Seq<char>) -> Seq<(String, V)>
    decreases s.len(),
{
    if s.len() == 0 {
        seq![]
    } else if same_ignoring_ascii_case(s.last().0@, key) {
        keep_unlike(s.drop_last(), key)
    } else {
        keep_unlike(s.drop_last(), key).push(s.last())
    }
}

proof fn lemma_keep_unlike_from<V>(s: Seq<(String, V)>, key: Seq<char>)
    ensures
        forall|j: int|
            0 <= j < keep_unlike(s, key).len() ==> exists|i: int|
                0 <= i < s.len() && s[i] == #[trigger] keep_unlike(s, key)[j],
    decreases s.len(),
{
    if s.len() > 0 {
        let r = s.drop_last();
        lemma_keep_unlike_from(r, key);
        assert forall|j: int| 0 <= j < keep_unlike(s, key).len() implies exists|i: int|
            0 <= i < s.len() && s[i] == #[trigger] keep_unlike(s, key)[j] by {
            if j < keep_unlike(r, key).len() {
                let i = choose|i: int| 0 <= i < r.len() && r[i] == keep_unlike(r, key)[j];
                assert(s[i] == keep_unlike(s, key)[j]);
            } else {
                assert(s[s.len() - 1] == keep_unlike(s, key)[j]);
            }
        }
    }
}

proof fn lemma_keep_unlike_distinct<V>(s: Seq<(String, V)>, key: Seq<char>)
    requires
        keys_distinct(s),
    ensures
        keys_distinct(keep_unlike(s, key)),
    decreases s.len(),
{
    if s.len() > 0 {
        let r = s.drop_last();
        assert(keys_distinct(r));
        lemma_keep_unlike_distinct(r, key);
        lemma_keep_unlike_from(r, key);
        let k = keep_unlike(r, key);
        assert forall|j: int| 0 <= j < k.len() implies k[j].0@ != s.last().0@ by {
            let i = choose|i: int| 0 <= i < r.len() && r[i] == k[j];
            assert(s[i] == r[i]);
        }
    }
}

proof fn lemma_keep_unlike_map<V>(s: Seq<(String, V)>, key: Seq<char>)
    ensures
        pairs_map(keep_unlike(s, key)) == without_like(pairs_map(s), key),
    decreases s.len(),
{
    if s.len() == 0 {
        assert(without_like(pairs_map(s), key) =~= Map::<Seq<char>, V>::empty());
    } else {
        let r = s.drop_last();
        lemma_keep_unlike_map(r, key);
        if same_ignoring_ascii_case(s.last().0@, key) {
            assert(without_like(pairs_map(s), key) =~= without_like(pairs_map(r), key));
        } else {
            let k = keep_unlike(r, key).push(s.last());
            assert(k.drop_last() =~= keep_unlike(r, key));
            assert(k.last() == s.last());
            assert(pairs_map(k) == pairs_map(keep_unlike(r, key)).insert(s.last().0@, s.last().1));
            assert(without_like(pairs_map(s), key) =~= without_like(pairs_map(r), key).insert(
                s.last().0@,
                s.last().1,
            ));
        }
    }
}

/// A map from texts to values that holds each key once.
pub struct TextMap<V> {
    entries: Vec<(String, V)>,
}

impl<V> TextMap<V> {
    #[verifier::type_invariant]
    spec fn keys_unique(self) -> bool {
        keys_distinct(self.entries@)
    }

    /// The key-value pairs, in the order in which their keys were first written.
    pub closed spec fn pairs(self) -> Seq<(String, V)> {
        self.entries@
    }
}

impl<V> View for TextMap<V> {
    type V = Map<Seq<char>, V>;

    closed spec fn view(&self) -> Map<Seq<char>, V> {
        pairs_map(self.entries@)
    }
}

impl<V> TextMap<V> {
    /// An empty map.
    pub fn new() -> (m: Self)
        ensures
            m@ == Map::<Seq<char>, V>::empty(),
    {
        TextMap { entries: Vec::new() }
    }

    /// The pairs of the map: each key once, and together they make up the map.
    pub fn entries(&self) -> (r: &Vec<(String, V)>)
        ensures
            r@ == self.pairs(),
            keys_distinct(r@),
            pairs_map(r@) == self@,
    {
        proof {
            use_type_invariant(self);
        }
        &self.entries
    }

    /// The number of keys.
    pub fn len(&self) -> (n: usize)
        ensures
            n == self@.len(),
    {
        proof {
            use_type_invariant(self);
            lemma_len(self.entries@);
        }
        self.entries.len()
    }

    fn position(&self, key: &String) -> (r: Option<usize>)
        ensures
            match r {
                Some(i) => i < self.entries@.len() && self.entries@[i as int].0@ == key@,
                None => forall|i: int| 0 <= i < self.entries@.len() ==> self.entries@[i].0@ != key@,
            },
    {
        let mut i: usize = 0;
        while i < self.entries.len()
            invariant
                i <= self.entries@.len(),
                forall|j: int| 0 <= j < i ==> self.entries@[j].0@ != key@,
            decreases self.entries@.len() - i,
        {
            if self.entries[i].0 == *key {
                return Some(i);
            }
            i = i + 1;
        }
        None
    }

    /// The value of `key`, if the map holds it.
    pub fn get(&self, key: &str) -> (r: Option<&V>)
        ensures
            match r {
                Some(v) => self@.contains_key(key@) && *v == self@[key@],
                None => !self@.contains_key(key@),
            },
    {
        proof {
            use_type_invariant(self);
        }
        let k = key.to_owned();
        match self.position(&k) {
            Some(i) => {
                proof {
                    lemma_at(self.entries@, i as int);
                }
                Some(&self.entries[i].1)
            },
            None => {
                proof {
                    lemma_absent(self.entries@, key@);
                }
                None
            },
        }
    }

    /// Whether the map holds `key`.
    pub fn contains_key(&self, key: &str) -> (r: bool)
        ensures
            r == self@.contains_key(key@),
    {
        self.get(key).is_some()
    }

    /// Writes `value` under `key`, replacing any earlier value of `key`.
    pub fn insert(&mut self, key: String, value: V)
        ensures
            final(self)@ == old(self)@.insert(key@, value),
    {
        proof {
            use_type_invariant(&*self);
        }
        let mut entries: Vec<(String, V)> = Vec::new();
        std::mem::swap(&mut entries, &mut self.entries);
        let ghost before = entries@;
        match self.find_in(&entries, &key) {
            Some(i) => {
                proof {
                    lemma_replace(before, i as int, (key, value));
                }
                entries.set(i, (key, value));
            },
            None => {
                entries.push((key, value));
                proof {
                    assert(entries@.drop_last() =~= before);
                }
            },
        }
        self.entries = entries;
    }

    fn find_in(&self, entries: &Vec<(String, V)>, key: &String) -> (r: Option<usize>)
        ensures
            match r {
                Some(i) => i < entries@.len() && entries@[i as int].0@ == key@,
                None => forall|i: int| 0 <= i < entries@.len() ==> entries@[i].0@ != key@,
            },
    {
        let mut i: usize = 0;
        while i < entries.len()
            invariant
                i <= entries@.len(),
                forall|j: int| 0 <= j < i ==> entries@[j].0@ != key@,
            decreases entries@.len() - i,
        {
            if entries[i].0 == *key {
                return Some(i);
            }
            i = i + 1;
        }
        None
    }

    /// Removes every key that equals `key` when ASCII case is ignored.
    pub fn remove_ignoring_case(&mut self, key: &str)
        ensures
            final(self)@ == without_like(old(self)@, key@),
    {
        proof {
            use_type_invariant(&*self);
        }
        let mut entries: Vec<(String, V)> = Vec::new();
        std::mem::swap(&mut entries, &mut self.entries);
        let ghost old_s = entries@;
        let mut kept: Vec<(String, V)> = Vec::new();
        for p in it: entries.into_iter()
            invariant
                it.seq() == old_s,
                kept@ == keep_unlike(old_s.take(it.index() as int), key@),
        {
            let ghost n = it.index() as int;
            assert(old_s.take(n + 1).drop_last() =~= old_s.take(n));
            assert(old_s.take(n + 1).last() == p);
            if !eq_ignoring_ascii_case(p.0.as_str(), key) {
                kept.push(p);
            }
        }
        proof {
            assert(old_s.take(old_s.len() as int) =~= old_s);
            lemma_keep_unlike_distinct(old_s, key@);
            lemma_keep_unlike_map(old_s, key@);
        }
        self.entries = kept;
    }

    /// The map that writing `pairs` in order builds: a later pair for a key
    /// replaces an earlier one.
    pub fn from_pairs(pairs: Vec<(String, V)>) -> (m: Self)
        ensures
            m@ == pairs_map(pairs@),
    {
        let mut m = TextMap::new();
        let ghost all = pairs@;
        for p in it: pairs.into_iter()
            invariant
                it.seq() == all,
                m@ == pairs_map(all.take(it.index() as int)),
        {
            let ghost n = it.index() as int;
            assert(all.take(n + 1).drop_last() =~= all.take(n));
            m.insert(p.0, p.1);
        }
        assert(all.take(all.len() as int) =~= all);
        m
    }
}

} // verus!
