//! Insertion-ordered string-keyed map.
//!
//! Choice options and the question set both go over the wire as JSON objects
//! whose member order is part of the request, so the map keeps keys in the
//! order they were first inserted and replaces values in place.

use vstd::prelude::*;

use crate::text::same_text;

verus! {

/// The entries of an ordered map, as key text and value.
pub type Entries<V> = Seq<(Seq<char>, V)>;

/// The keys of `s`, in order.
pub open spec fn keys_of<V>(s: Entries<V>) -> Seq<Seq<char>> {
    s.map_values(|e: (Seq<char>, V)| e.0)
}

/// No key occurs twice.
pub open spec fn keys_distinct<V>(s: Entries<V>) -> bool {
    forall|i: int, j: int| 0 <= i < s.len() && 0 <= j < s.len() && i != j ==> s[i].0 != s[j].0
}

/// Whether `k` is a key of `s`.
pub open spec fn has_key<V>(s: Entries<V>, k: Seq<char>) -> bool {
    exists|i: int| 0 <= i < s.len() && s[i].0 == k
}

/// The first position at which `k` is a key of `s`.
pub open spec fn is_first_position<V>(s: Entries<V>, k: Seq<char>, i: int) -> bool {
    &&& 0 <= i < s.len()
    &&& s[i].0 == k
    &&& forall|j: int| 0 <= j < i ==> s[j].0 != k
}

/// The position of `k` in `s`, if it is a key.
pub open spec fn position<V>(s: Entries<V>, k: Seq<char>) -> Option<int> {
    if has_key(s, k) {
        Some(choose|i: int| is_first_position(s, k, i))
    } else {
        None
    }
}

/// The value stored under `k`, if any.
pub open spec fn lookup<V>(s: Entries<V>, k: Seq<char>) -> Option<V> {
    match position(s, k) {
        Some(i) => Some(s[i].1),
        None => None,
    }
}

/// `s` after inserting `v` under `k`: replaced in place when `k` is present,
/// appended otherwise.
pub open spec fn inserted<V>(s: Entries<V>, k: Seq<char>, v: V) -> Entries<V> {
    match position(s, k) {
        Some(i) => s.update(i, (k, v)),
        None => s.push((k, v)),
    }
}

/// The entries that inserting each pair of `pairs` in turn into `s` gives.
pub open spec fn inserted_all<V>(s: Entries<V>, pairs: Entries<V>) -> Entries<V>
    decreases pairs.len(),
{
    if pairs.len() == 0 {
        s
    } else {
        inserted(inserted_all(s, pairs.drop_last()), pairs.last().0, pairs.last().1)
    }
}

/// The entries that inserting each pair of `pairs` in turn into an empty map
/// gives.
pub open spec fn built<V>(pairs: Entries<V>) -> Entries<V> {
    inserted_all(Seq::empty(), pairs)
}

/// A key that is present has a first position.
pub proof fn lemma_position<V>(s: Entries<V>, k: Seq<char>)
    ensures
        has_key(s, k) ==> (position(s, k) matches Some(i) && is_first_position(s, k, i)),
        !has_key(s, k) ==> position(s, k) is None,
{
    if has_key(s, k) {
        let w = choose|i: int| 0 <= i < s.len() && s[i].0 == k;
        lemma_first_exists(s, k, w);
    }
}

proof fn lemma_first_exists<V>(s: Entries<V>, k: Seq<char>, w: int)
    requires
        0 <= w < s.len(),
        s[w].0 == k,
    ensures
        exists|i: int| is_first_position(s, k, i),
    decreases w,
{
    if forall|j: int| 0 <= j < w ==> s[j].0 != k {
        assert(is_first_position(s, k, w));
    } else {
        let j = choose|j: int| 0 <= j < w && s[j].0 == k;
        lemma_first_exists(s, k, j);
    }
}

/// Reading a key right after inserting it gives the inserted value.
pub proof fn lemma_lookup_after_insert<V>(s: Entries<V>, k: Seq<char>, v: V)
    ensures
        lookup(inserted(s, k, v), k) == Some(v),
{
    lemma_position(s, k);
    let t = inserted(s, k, v);
    match position(s, k) {
        Some(i) => {
            assert(is_first_position(t, k, i));
        },
        None => {
            assert(is_first_position(t, k, s.len() as int));
        },
    }
    lemma_position(t, k);
    lemma_first_position_unique(t, k);
}

/// Inserting one key leaves what every other key reads unchanged.
pub proof fn lemma_lookup_other_after_insert<V>(s: Entries<V>, k: Seq<char>, v: V, other: Seq<char>)
    requires
        other != k,
    ensures
        lookup(inserted(s, k, v), other) == lookup(s, other),
{
    lemma_position(s, k);
    lemma_position(s, other);
    let t = inserted(s, k, v);
    lemma_position(t, other);
    lemma_first_position_unique(s, other);
    lemma_first_position_unique(t, other);
    if has_key(s, other) {
        let i = position(s, other)->Some_0;
        assert(is_first_position(t, other, i));
    } else {
        assert forall|j: int| 0 <= j < t.len() implies t[j].0 != other by {
            if j < s.len() && !(position(s, k) == Some(j)) {
                assert(t[j] == s[j]);
            }
        }
    }
}

/// Inserting keeps the order of the keys already present, and appends a new
/// key at the end.
pub proof fn lemma_keys_after_insert<V>(s: Entries<V>, k: Seq<char>, v: V)
    ensures
        keys_of(inserted(s, k, v)) == if has_key(s, k) {
            keys_of(s)
        } else {
            keys_of(s).push(k)
        },
        inserted(s, k, v).len() == if has_key(s, k) {
            s.len()
        } else {
            s.len() + 1
        },
{
    lemma_position(s, k);
    let t = inserted(s, k, v);
    if has_key(s, k) {
        assert(keys_of(t) =~= keys_of(s));
    } else {
        assert(keys_of(t) =~= keys_of(s).push(k));
    }
}

/// Inserting never makes a key occur twice.
pub proof fn lemma_insert_keeps_keys_distinct<V>(s: Entries<V>, k: Seq<char>, v: V)
    requires
        keys_distinct(s),
    ensures
        keys_distinct(inserted(s, k, v)),
{
    lemma_position(s, k);
}

/// In a map whose keys are distinct, reading the key at any position gives
/// the value at that position: every entry that `iter` yields is what `get`
/// returns for its key.
pub proof fn lemma_lookup_at_position<V>(s: Entries<V>, i: int)
    requires
        keys_distinct(s),
        0 <= i < s.len(),
    ensures
        lookup(s, s[i].0) == Some(s[i].1),
{
    assert(is_first_position(s, s[i].0, i));
    lemma_position(s, s[i].0);
    lemma_first_position_unique(s, s[i].0);
}

proof fn lemma_first_position_unique<V>(s: Entries<V>, k: Seq<char>)
    ensures
        forall|i: int, j: int| is_first_position(s, k, i) && is_first_position(s, k, j) ==> i == j,
{
}

/// A map from strings to `V` that keeps its keys in insertion order.
#[derive(Debug, PartialEq)]
pub struct OrderedMap<V> {
    entries: Vec<(String, V)>,
}

impl<V> View for OrderedMap<V> {
    type V = Entries<V>;

    closed spec fn view(&self) -> Entries<V> {
        self.entries@.map_values(|e: (String, V)| (e.0@, e.1))
    }
}

impl<V> OrderedMap<V> {
    #[verifier::type_invariant]
    closed spec fn inv(&self) -> bool {
        keys_distinct(self@)
    }

    /// An empty map.
    pub fn new() -> (m: Self)
        ensures
            m@ == Seq::<(Seq<char>, V)>::empty(),
            keys_distinct(m@),
    {
        let m = OrderedMap { entries: Vec::new() };
        assert(m@ =~= Seq::<(Seq<char>, V)>::empty());
        m
    }

    /// The position of `key`, searching from the front.
    fn find(&self, key: &str) -> (r: Option<usize>)
        ensures
            r matches Some(i) ==> position(self@, key@) == Some(i as int) && i < self.entries@.len(),
            r is None ==> position(self@, key@) is None,
    {
        let ghost s = self@;
        let mut i: usize = 0;
        let n = self.entries.len();
        while i < n
            invariant
                n == self.entries@.len(),
                s == self@,
                s.len() == n,
                0 <= i <= n,
                forall|j: int| 0 <= j < i ==> s[j].0 != key@,
            decreases n - i,
        {
            if same_text(self.entries[i].0.as_str(), key) {
                proof {
                    assert(is_first_position(s, key@, i as int));
                    lemma_position(s, key@);
                }
                return Some(i);
            }
            i = i + 1;
        }
        proof {
            lemma_position(s, key@);
        }
        None
    }

    /// Insert a key, replacing its value in place if the key already exists.
    pub fn insert(&mut self, key: &str, value: V) -> (r: &mut Self)
        ensures
            r@ == inserted(old(self)@, key@, value),
            keys_distinct(r@),
            *final(self) == *final(r),
    {
        proof {
            use_type_invariant(&*self);
            lemma_position(self@, key@);
            lemma_insert_keeps_keys_distinct(self@, key@, value);
        }
        let ghost s = self@;
        match self.find(key) {
            Some(i) => {
                let mut entries: Vec<(String, V)> = Vec::new();
                std::mem::swap(&mut entries, &mut self.entries);
                entries[i].1 = value;
                proof {
                    assert(entries@.map_values(|e: (String, V)| (e.0@, e.1)) =~= s.update(i as int, (key@, value)));
                }
                self.entries = entries;
            },
            None => {
                let mut entries: Vec<(String, V)> = Vec::new();
                std::mem::swap(&mut entries, &mut self.entries);
                entries.push((String::from_str(key), value));
                proof {
                    assert(entries@.map_values(|e: (String, V)| (e.0@, e.1)) =~= s.push((key@, value)));
                }
                self.entries = entries;
                proof {
                    assert(self@ =~= s.push((key@, value)));
                }
            },
        }
        self
    }

    /// The value stored under `key`.
    pub fn get(&self, key: &str) -> (r: Option<&V>)
        ensures
            keys_distinct(self@),
            r matches Some(v) ==> lookup(self@, key@) == Some(*v),
            r is None ==> lookup(self@, key@) is None,
    {
        proof {
            use_type_invariant(self);
        }
        match self.find(key) {
            Some(i) => {
                assert(self@[i as int].1 == self.entries@[i as int].1);
                Some(&self.entries[i].1)
            },
            None => None,
        }
    }

    /// The keys, in insertion order.
    pub fn keys(&self) -> (r: Vec<&str>)
        ensures
            keys_distinct(self@),
            r@.map_values(|k: &str| k@) == keys_of(self@),
    {
        proof {
            use_type_invariant(self);
        }
        let mut r: Vec<&str> = Vec::new();
        let n = self.entries.len();
        for i in 0..n
            invariant
                n == self.entries@.len(),
                r@.len() == i,
                forall|j: int| 0 <= j < i ==> #[trigger] r@[j]@ == self@[j].0,
        {
            assert(self@[i as int].0 == self.entries@[i as int].0@);
            r.push(self.entries[i].0.as_str());
        }
        assert(r@.map_values(|k: &str| k@) =~= keys_of(self@));
        r
    }

    /// The entries, in insertion order.
    pub fn iter(&self) -> (r: Vec<(&str, &V)>)
        ensures
            keys_distinct(self@),
            r@.len() == self@.len(),
            forall|j: int| #![trigger r@[j]] 0 <= j < r@.len() ==> r@[j].0@ == self@[j].0 && *r@[j].1 == self@[j].1,
    {
        proof {
            use_type_invariant(self);
        }
        let mut r: Vec<(&str, &V)> = Vec::new();
        let n = self.entries.len();
        for i in 0..n
            invariant
                n == self.entries@.len(),
                r@.len() == i,
                forall|j: int| #![trigger r@[j]] 0 <= j < i ==> r@[j].0@ == self@[j].0 && *r@[j].1 == self@[j].1,
        {
            assert(self@[i as int] == (self.entries@[i as int].0@, self.entries@[i as int].1));
            r.push((self.entries[i].0.as_str(), &self.entries[i].1));
        }
        r
    }

    /// The number of entries.
    pub fn len(&self) -> (n: usize)
        ensures
            keys_distinct(self@),
            n == self@.len(),
    {
        proof {
            use_type_invariant(self);
        }
        self.entries.len()
    }

    /// Whether there are no entries.
    pub fn is_empty(&self) -> (b: bool)
        ensures
            keys_distinct(self@),
            b == (self@.len() == 0),
    {
        proof {
            use_type_invariant(self);
        }
        self.entries.len() == 0
    }

    /// A map holding the given pairs, inserted in order: a later pair with a
    /// key seen before replaces the earlier value in place.
    pub fn from_entries(entries: Vec<(String, V)>) -> (m: Self)
        ensures
            m@ == built(entries@.map_values(|e: (String, V)| (e.0@, e.1))),
            keys_distinct(m@),
    {
        let ghost all = entries@.map_values(|e: (String, V)| (e.0@, e.1));
        let mut m = OrderedMap::new();
        for e in it: entries.into_iter()
            invariant
                all == it.seq().map_values(|e: (String, V)| (e.0@, e.1)),
                m@ == built(all.take(it.index() as int)),
        {
            let (k, v) = e;
            proof {
                assert(all.take(it.index() as int + 1).drop_last() =~= all.take(it.index() as int));
            }
            m.insert(k.as_str(), v);
        }
        proof {
            assert(all.take(all.len() as int) =~= all);
            use_type_invariant(&m);
        }
        m
    }
}

impl<V: Clone> Clone for OrderedMap<V> {
    /// A copy with the same keys in the same order, each value cloned.
    fn clone(&self) -> (r: Self)
        ensures
            keys_of(r@) == keys_of(self@),
            keys_distinct(r@),
            forall|i: int| 0 <= i < self@.len() ==> cloned::<V>(self@[i].1, #[trigger] r@[i].1),
    {
        proof {
            use_type_invariant(self);
        }
        let mut entries: Vec<(String, V)> = Vec::new();
        let n = self.entries.len();
        for i in 0..n
            invariant
                n == self.entries@.len(),
                n == self@.len(),
                keys_distinct(self@),
                entries@.len() == i,
                forall|j: int|
                    #![trigger entries@[j]]
                    0 <= j < i ==> entries@[j].0@ == self@[j].0 && cloned::<V>(
                        self@[j].1,
                        entries@[j].1,
                    ),
        {
            assert(self@[i as int] == (self.entries@[i as int].0@, self.entries@[i as int].1));
            let k = self.entries[i].0.clone();
            let v = self.entries[i].1.clone();
            entries.push((k, v));
        }
        let r = OrderedMap { entries };
        assert(keys_of(r@) =~= keys_of(self@));
        assert(keys_distinct(r@)) by {
            assert forall|i: int, j: int|
                0 <= i < r@.len() && 0 <= j < r@.len() && i != j implies r@[i].0 != r@[j].0 by {
                assert(keys_of(r@)[i] == keys_of(self@)[i]);
                assert(keys_of(r@)[j] == keys_of(self@)[j]);
            }
        }
        r
    }
}

impl<V> Default for OrderedMap<V> {
    fn default() -> (m: Self)
        ensures
            m@ == Seq::<(Seq<char>, V)>::empty(),
            keys_distinct(m@),
    {
        OrderedMap::new()
    }
}

} // verus!
