use vstd::prelude::*;

use std::sync::Arc;

use crate::model::Source;
use crate::text::{chars_eq, chars_of};

verus! {

/// A cached source list; `Arc` lets the cache and a response share it.
pub type CachedSources = Arc<Vec<Source>>;

/// One cache entry: the session key and its sources.
pub type Entry = (Seq<char>, CachedSources);

/// `Arc::clone`: another handle to the same value.
#[verifier::external_body]
pub(crate) fn share(value: &CachedSources) -> (r: CachedSources)
    ensures
        r == *value,
{
    Arc::clone(value)
}

/// No key occurs twice.
pub open spec fn distinct_keys(s: Seq<Entry>) -> bool {
    forall|i: int, j: int| 0 <= i < j < s.len() ==> #[trigger] s[i].0 != #[trigger] s[j].0
}

/// The value stored under `key`, if any.
pub open spec fn lookup(s: Seq<Entry>, key: Seq<char>) -> Option<CachedSources>
    decreases s.len(),
{
    if s.len() == 0 {
        None
    } else if s.last().0 == key {
        Some(s.last().1)
    } else {
        lookup(s.drop_last(), key)
    }
}

/// The entries without the one stored under `key` (`retain(|k| k != key)`).
pub open spec fn without_key(s: Seq<Entry>, key: Seq<char>) -> Seq<Entry>
    decreases s.len(),
{
    if s.len() == 0 {
        s
    } else if s.last().0 == key {
        without_key(s.drop_last(), key)
    } else {
        without_key(s.drop_last(), key).push(s.last())
    }
}

/// Drops the least recently used entries until at most `capacity` remain.
pub open spec fn keep_newest(s: Seq<Entry>, capacity: nat) -> Seq<Entry> {
    if s.len() > capacity {
        s.subrange(s.len() - capacity, s.len() as int)
    } else {
        s
    }
}

/// The entries after `insert(key, value)`.
pub open spec fn insert_spec(s: Seq<Entry>, capacity: nat, key: Seq<char>, value: CachedSources) -> Seq<Entry> {
    keep_newest(without_key(s, key).push((key, value)), capacity)
}

/// The entries after a `get(key)` that found `value`: the entry becomes the most recent.
pub open spec fn touch_spec(s: Seq<Entry>, key: Seq<char>, value: CachedSources) -> Seq<Entry> {
    without_key(s, key).push((key, value))
}

/// A bounded cache of search sessions that evicts the least recently used one.
pub struct SourceCache {
    capacity: usize,
    entries: Vec<(String, CachedSources)>,
}

impl View for SourceCache {
    type V = Seq<Entry>;

    closed spec fn view(&self) -> Seq<Entry> {
        self.entries@.map_values(|e: (String, CachedSources)| (e.0@, e.1))
    }
}

impl SourceCache {
    /// The most entries the cache keeps.
    pub closed spec fn capacity_spec(&self) -> nat {
        self.capacity as nat
    }

    /// The cache's invariant: a positive capacity, no more entries than that, and one
    /// entry per key.
    pub closed spec fn wf(&self) -> bool {
        &&& self.capacity >= 1
        &&& self@.len() <= self.capacity
        &&& distinct_keys(self@)
    }

    /// A well-formed cache keeps room for at least one session and holds no more sessions
    /// than its capacity, each under its own key.
    pub proof fn law_wf_capacity(&self)
        requires
            self.wf(),
        ensures
            self.capacity_spec() >= 1,
            self@.len() <= self.capacity_spec(),
            distinct_keys(self@),
    {
    }

    /// An empty cache that keeps `capacity` entries, at least one.
    pub fn new(capacity: usize) -> (c: SourceCache)
        ensures
            c.wf(),
            c@ == Seq::<Entry>::empty(),
            c.capacity_spec() == if capacity >= 1 { capacity as nat } else { 1 },
    {
        let capacity = if capacity >= 1 { capacity } else { 1 };
        let c = SourceCache { capacity, entries: Vec::new() };
        assert(c@ =~= Seq::<Entry>::empty());
        c
    }

    /// The number of cached sessions.
    pub fn len(&self) -> (n: usize)
        requires
            self.wf(),
        ensures
            n == self@.len(),
            n <= self.capacity_spec(),
    {
        self.entries.len()
    }

    /// The index of `key`, if it is cached.
    fn position(&self, key: &Vec<char>) -> (r: Option<usize>)
        requires
            self.wf(),
        ensures
            match r {
                Some(i) => i < self@.len() && self@[i as int].0 == key@,
                None => forall|i: int| 0 <= i < self@.len() ==> self@[i].0 != key@,
            },
    {
        let mut i: usize = 0;
        while i < self.entries.len()
            invariant
                i <= self.entries.len(),
                self@.len() == self.entries@.len(),
                forall|j: int| 0 <= j < self.entries@.len() ==> self@[j].0 == (#[trigger] self.entries@[j]).0@,
                forall|j: int| 0 <= j < i ==> self@[j].0 != key@,
            decreases self.entries.len() - i,
        {
            let k = chars_of(self.entries[i].0.as_str());
            if chars_eq(&k, key) {
                return Some(i);
            }
            i += 1;
        }
        None
    }

    /// Removes the entry stored under `key`, if any.
    fn remove_key(&mut self, key: &Vec<char>)
        requires
            old(self).wf(),
        ensures
            final(self)@ == without_key(old(self)@, key@),
            final(self).capacity == old(self).capacity,
            final(self)@.len() <= old(self)@.len(),
            distinct_keys(final(self)@),
            forall|i: int| 0 <= i < final(self)@.len() ==> final(self)@[i].0 != key@,
    {
        let ghost s = self@;
        proof {
            lemma_without_key_props(s, key@);
        }
        match self.position(key) {
            Some(i) => {
                proof {
                    lemma_without_unique(s, key@, i as int);
                }
                self.entries.remove(i);
                assert(self@ =~= s.remove(i as int));
            }
            None => {
                proof {
                    lemma_without_absent(s, key@);
                }
            }
        }
    }

    /// Makes the entry at `i`, stored under `key`, the most recently used, and gives its
    /// sources.
    fn touch(&mut self, key: &Vec<char>, i: usize) -> (value: CachedSources)
        requires
            old(self).wf(),
            i < old(self)@.len(),
            old(self)@[i as int].0 == key@,
        ensures
            final(self).wf(),
            final(self).capacity_spec() == old(self).capacity_spec(),
            value == old(self)@[i as int].1,
            final(self)@ == touch_spec(old(self)@, key@, value),
    {
        let ghost s = self@;
        assert(s[i as int] == (self.entries@[i as int].0@, self.entries@[i as int].1));
        let value = share(&self.entries[i].1);
        let stored = share(&value);
        let owned = self.entries[i].0.clone();
        self.remove_key(key);
        self.entries.push((owned, stored));
        proof {
            lemma_without_unique(s, key@, i as int);
            assert(self@ =~= without_key(s, key@).push((key@, value)));
            lemma_without_key_props(s, key@);
            lemma_push_distinct(without_key(s, key@), key@, value);
        }
        value
    }

    /// The sources cached under `key`; a hit makes the session the most recently used.
    pub fn get(&mut self, key: &str) -> (r: Option<CachedSources>)
        requires
            old(self).wf(),
        ensures
            final(self).wf(),
            final(self).capacity_spec() == old(self).capacity_spec(),
            r == lookup(old(self)@, key@),
            match r {
                Some(v) => final(self)@ == touch_spec(old(self)@, key@, v),
                None => final(self)@ == old(self)@,
            },
    {
        let k = chars_of(key);
        let ghost s = self@;
        proof {
            lemma_lookup_position(s, key@);
        }
        match self.position(&k) {
            Some(i) => {
                proof {
                    lemma_lookup_at(s, key@, i as int);
                }
                Some(self.touch(&k, i))
            }
            None => None,
        }
    }

    /// Caches `value` under `key`, replacing an older value, and evicts the least recently
    /// used session when the cache is over capacity.
    pub fn insert(&mut self, key: String, value: CachedSources)
        requires
            old(self).wf(),
        ensures
            final(self).wf(),
            final(self).capacity_spec() == old(self).capacity_spec(),
            final(self)@ == insert_spec(old(self)@, old(self).capacity_spec(), key@, value),
    {
        let k = chars_of(key.as_str());
        let ghost s = self@;
        self.remove_key(&k);
        let ghost w = self@;
        proof {
            lemma_push_distinct(w, key@, value);
        }
        self.entries.push((key, value));
        assert(self@ =~= w.push((k@, value)));
        let ghost pushed = self@;
        while self.entries.len() > self.capacity
            invariant
                self.capacity >= 1,
                self.capacity == old(self).capacity,
                pushed.len() >= self@.len(),
                self@ == pushed.subrange(pushed.len() - self@.len(), pushed.len() as int),
                self@.len() + 0 >= self.capacity || self@ == keep_newest(pushed, self.capacity as nat),
                pushed.len() <= self.capacity + 1,
            decreases self.entries.len(),
        {
            let ghost before = self@;
            self.entries.remove(0);
            assert(self@ =~= before.drop_first());
            assert(self@ =~= pushed.subrange(pushed.len() - self@.len(), pushed.len() as int));
        }
        proof {
            if pushed.len() > self.capacity {
                assert(self@.len() == self.capacity);
            } else {
                assert(self@.len() == pushed.len());
                assert(pushed.subrange(0, pushed.len() as int) == pushed);
            }
            lemma_keep_newest_distinct(pushed, self.capacity as nat);
        }
    }
}

// ---------------------------------------------------------------------------
// Laws of the cache
// ---------------------------------------------------------------------------

/// A session read right after it was written gives back what was written.
pub proof fn law_insert_then_get(s: Seq<Entry>, capacity: nat, key: Seq<char>, value: CachedSources)
    requires
        capacity >= 1,
    ensures
        lookup(insert_spec(s, capacity, key, value), key) == Some(value),
{
    let p = without_key(s, key).push((key, value));
    let k = keep_newest(p, capacity);
    assert(k.last() == p.last());
}

/// The cache never holds more sessions than its capacity.
pub proof fn law_insert_bounded(s: Seq<Entry>, capacity: nat, key: Seq<char>, value: CachedSources)
    requires
        capacity >= 1,
        s.len() <= capacity,
    ensures
        insert_spec(s, capacity, key, value).len() <= capacity,
{
    lemma_without_len(s, key);
}

/// While the cache has room, writing one session leaves every other session as it was.
pub proof fn law_insert_keeps_others(
    s: Seq<Entry>,
    capacity: nat,
    key: Seq<char>,
    value: CachedSources,
    other: Seq<char>,
)
    requires
        other != key,
        without_key(s, key).len() < capacity,
    ensures
        lookup(insert_spec(s, capacity, key, value), other) == lookup(s, other),
{
    let w = without_key(s, key);
    let p = w.push((key, value));
    assert(p.drop_last() == w);
    lemma_lookup_without(s, key, other);
}

/// When a new session arrives at a full cache, exactly the least recently used session
/// leaves.
pub proof fn law_eviction_takes_oldest(s: Seq<Entry>, capacity: nat, key: Seq<char>, value: CachedSources)
    requires
        capacity >= 1,
        s.len() == capacity,
        forall|i: int| 0 <= i < s.len() ==> s[i].0 != key,
    ensures
        insert_spec(s, capacity, key, value) == s.drop_first().push((key, value)),
{
    lemma_without_absent(s, key);
    assert(s.push((key, value)).subrange(1, (s.len() + 1) as int) =~= s.drop_first().push((key, value)));
}

/// A successful read changes no session's value; it only marks the session as the most
/// recently used.
pub proof fn law_get_keeps_values(s: Seq<Entry>, key: Seq<char>, other: Seq<char>)
    requires
        lookup(s, key).is_some(),
    ensures
        lookup(touch_spec(s, key, lookup(s, key).unwrap()), other) == lookup(s, other),
{
    let w = without_key(s, key);
    let p = w.push((key, lookup(s, key).unwrap()));
    assert(p.drop_last() == w);
    if other != key {
        lemma_lookup_without(s, key, other);
    }
}

// ---------------------------------------------------------------------------
// Lemmas about the entry sequence
// ---------------------------------------------------------------------------

proof fn lemma_without_key_props(s: Seq<Entry>, key: Seq<char>)
    requires
        distinct_keys(s),
    ensures
        distinct_keys(without_key(s, key)),
        without_key(s, key).len() <= s.len(),
        forall|i: int| 0 <= i < without_key(s, key).len() ==> without_key(s, key)[i].0 != key,
        forall|i: int| 0 <= i < without_key(s, key).len() ==> s.contains(#[trigger] without_key(s, key)[i]),
    decreases s.len(),
{
    if s.len() > 0 {
        let t = s.drop_last();
        assert forall|i: int, j: int| 0 <= i < j < t.len() implies #[trigger] t[i].0 != #[trigger] t[j].0 by {
            assert(t[i] == s[i] && t[j] == s[j]);
        }
        lemma_without_key_props(t, key);
        let w = without_key(t, key);
        assert forall|i: int| 0 <= i < w.len() implies s.contains(#[trigger] w[i]) by {
            let k = choose|k: int| 0 <= k < t.len() && t[k] == w[i];
            assert(s[k] == w[i]);
        }
        if s.last().0 != key {
            let p = w.push(s.last());
            assert forall|i: int| 0 <= i < w.len() implies #[trigger] w[i].0 != s.last().0 by {
                let k = choose|k: int| 0 <= k < t.len() && t[k] == w[i];
                assert(s[k] == w[i]);
                assert(s[k].0 != s[s.len() - 1].0);
            }
            assert forall|i: int, j: int| 0 <= i < j < p.len() implies #[trigger] p[i].0 != #[trigger] p[j].0 by {
                if j == p.len() - 1 {
                    assert(p[i] == w[i]);
                } else {
                    assert(p[i] == w[i] && p[j] == w[j]);
                }
            }
            assert forall|i: int| 0 <= i < p.len() implies s.contains(#[trigger] p[i]) by {
                if i == p.len() - 1 {
                    assert(s[s.len() - 1] == p[i]);
                } else {
                    assert(p[i] == w[i]);
                }
            }
        }
    }
}

proof fn lemma_without_len(s: Seq<Entry>, key: Seq<char>)
    ensures
        without_key(s, key).len() <= s.len(),
    decreases s.len(),
{
    if s.len() > 0 {
        lemma_without_len(s.drop_last(), key);
    }
}

proof fn lemma_lookup_without(s: Seq<Entry>, key: Seq<char>, other: Seq<char>)
    requires
        other != key,
    ensures
        lookup(without_key(s, key), other) == lookup(s, other),
    decreases s.len(),
{
    if s.len() > 0 {
        let t = s.drop_last();
        lemma_lookup_without(t, key, other);
        if s.last().0 != key {
            let w = without_key(t, key).push(s.last());
            assert(w.drop_last() == without_key(t, key));
        }
    }
}

proof fn lemma_without_absent(s: Seq<Entry>, key: Seq<char>)
    requires
        forall|i: int| 0 <= i < s.len() ==> s[i].0 != key,
    ensures
        without_key(s, key) == s,
    decreases s.len(),
{
    if s.len() > 0 {
        let t = s.drop_last();
        assert forall|i: int| 0 <= i < t.len() implies t[i].0 != key by {
            assert(t[i] == s[i]);
        }
        lemma_without_absent(t, key);
        assert(s.last() == s[s.len() - 1]);
        assert(t.push(s.last()) == s);
    }
}

proof fn lemma_without_unique(s: Seq<Entry>, key: Seq<char>, i: int)
    requires
        distinct_keys(s),
        0 <= i < s.len(),
        s[i].0 == key,
    ensures
        without_key(s, key) == s.remove(i),
    decreases s.len(),
{
    let t = s.drop_last();
    if i == s.len() - 1 {
        assert forall|k: int| 0 <= k < t.len() implies t[k].0 != key by {
            assert(t[k] == s[k]);
        }
        lemma_without_absent(t, key);
        assert(s.remove(i) =~= t);
    } else {
        assert forall|a: int, b: int| 0 <= a < b < t.len() implies #[trigger] t[a].0 != #[trigger] t[b].0 by {
            assert(t[a] == s[a] && t[b] == s[b]);
        }
        assert(t[i] == s[i]);
        lemma_without_unique(t, key, i);
        assert(s.last().0 != key) by {
            assert(s[i].0 != s[s.len() - 1].0);
        }
        assert(t.remove(i).push(s.last()) =~= s.remove(i));
    }
}

proof fn lemma_lookup_position(s: Seq<Entry>, key: Seq<char>)
    ensures
        (forall|i: int| 0 <= i < s.len() ==> s[i].0 != key) ==> lookup(s, key).is_none(),
    decreases s.len(),
{
    if s.len() > 0 {
        let t = s.drop_last();
        if forall|i: int| 0 <= i < s.len() ==> s[i].0 != key {
            assert forall|i: int| 0 <= i < t.len() implies t[i].0 != key by {
                assert(t[i] == s[i]);
            }
            assert(s[s.len() - 1].0 != key);
        }
        lemma_lookup_position(t, key);
    }
}

proof fn lemma_lookup_at(s: Seq<Entry>, key: Seq<char>, i: int)
    requires
        distinct_keys(s),
        0 <= i < s.len(),
        s[i].0 == key,
    ensures
        lookup(s, key) == Some(s[i].1),
    decreases s.len(),
{
    let t = s.drop_last();
    if i < s.len() - 1 {
        assert forall|a: int, b: int| 0 <= a < b < t.len() implies #[trigger] t[a].0 != #[trigger] t[b].0 by {
            assert(t[a] == s[a] && t[b] == s[b]);
        }
        assert(t[i] == s[i]);
        assert(s[i].0 != s[s.len() - 1].0);
        lemma_lookup_at(t, key, i);
    }
}

proof fn lemma_push_distinct(w: Seq<Entry>, key: Seq<char>, value: CachedSources)
    requires
        distinct_keys(w),
        forall|i: int| 0 <= i < w.len() ==> w[i].0 != key,
    ensures
        distinct_keys(w.push((key, value))),
{
    let p = w.push((key, value));
    assert forall|i: int, j: int| 0 <= i < j < p.len() implies #[trigger] p[i].0 != #[trigger] p[j].0 by {
        assert(p[i] == w[i]);
        if j < w.len() {
            assert(p[j] == w[j]);
        }
    }
}

proof fn lemma_keep_newest_distinct(s: Seq<Entry>, capacity: nat)
    requires
        distinct_keys(s),
    ensures
        distinct_keys(keep_newest(s, capacity)),
{
    if s.len() > capacity {
        let k = keep_newest(s, capacity);
        let off = s.len() - capacity;
        assert forall|i: int, j: int| 0 <= i < j < k.len() implies #[trigger] k[i].0 != #[trigger] k[j].0 by {
            assert(k[i] == s[i + off] && k[j] == s[j + off]);
        }
    }
}


/// The entries after inserting each `(key, value)` of `ops` in turn.
pub open spec fn insert_all(s: Seq<Entry>, capacity: nat, ops: Seq<(Seq<char>, CachedSources)>) -> Seq<Entry>
    decreases ops.len(),
{
    if ops.len() == 0 {
        s
    } else {
        insert_spec(insert_all(s, capacity, ops.drop_last()), capacity, ops.last().0, ops.last().1)
    }
}

/// Over any sequence of inserts the cache never holds more sessions than its capacity, and
/// the session written last is the one read back under its key.
pub proof fn law_inserts_bounded(s: Seq<Entry>, capacity: nat, ops: Seq<(Seq<char>, CachedSources)>)
    requires
        capacity >= 1,
        s.len() <= capacity,
    ensures
        insert_all(s, capacity, ops).len() <= capacity,
        ops.len() > 0 ==> lookup(insert_all(s, capacity, ops), ops.last().0) == Some(ops.last().1),
    decreases ops.len(),
{
    if ops.len() > 0 {
        law_inserts_bounded(s, capacity, ops.drop_last());
        let prev = insert_all(s, capacity, ops.drop_last());
        law_insert_bounded(prev, capacity, ops.last().0, ops.last().1);
        law_insert_then_get(prev, capacity, ops.last().0, ops.last().1);
    }
}

} // verus!
