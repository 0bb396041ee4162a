//! The kernel caches: a mapping from a shape key (and, on the GPU path,
//! a kernel name) to an already-compiled kernel entry.
//!
//! The caches are deliberately dumb about compilation: a caller looks a
//! key up, compiles outside any lock on a miss, and then offers its
//! freshly built entry with [`JitCache::insert_if_absent`]. If another
//! caller inserted the same key in the meantime, the offer is declined and
//! the first inserter's entry stays — at most one entry per key ever
//! survives, though several callers may have compiled redundantly. The
//! laws of that policy, convergence and distinctness, are stated and
//! proved at the end of this module.
//!
//! The entry type is a parameter: the caches never look inside a compiled
//! kernel, they only share it.

use vstd::prelude::*;

use crate::shape::ShapeKey;

verus! {

/// The map an association list denotes; a later entry for a key would win,
/// though a well-formed cache never holds two entries for one key.
pub open spec fn entries_map<K, V>(s: Seq<(K, V)>) -> Map<K, V>
    decreases s.len(),
{
    if s.len() == 0 {
        Map::empty()
    } else {
        entries_map(s.drop_last()).insert(s.last().0, s.last().1)
    }
}

/// No two entries share a key.
pub open spec fn keys_unique<K, V>(s: Seq<(K, V)>) -> bool {
    forall|i: int, j: int| 0 <= i < j < s.len() ==> (#[trigger] s[i]).0 != (#[trigger] s[j]).0
}

/// A key is in the denoted map exactly when some entry holds it.
proof fn lemma_entries_map_contains<K, V>(s: Seq<(K, V)>, key: K)
    ensures
        entries_map(s).contains_key(key) <==> exists|i: int|
            0 <= i < s.len() && (#[trigger] s[i]).0 == key,
    decreases s.len(),
{
    if s.len() > 0 {
        lemma_entries_map_contains(s.drop_last(), key);
        if s.last().0 == key {
            assert(s[s.len() - 1].0 == key);
        } else if exists|i: int| 0 <= i < s.len() && (#[trigger] s[i]).0 == key {
            let i = choose|i: int| 0 <= i < s.len() && (#[trigger] s[i]).0 == key;
            assert(s.drop_last()[i] == s[i]);
        }
    }
}

/// Under unique keys, the denoted map sends each entry's key to that
/// entry's value.
proof fn lemma_entries_map_at<K, V>(s: Seq<(K, V)>, i: int)
    requires
        keys_unique(s),
        0 <= i < s.len(),
    ensures
        entries_map(s).contains_key(s[i].0),
        entries_map(s)[s[i].0] == s[i].1,
    decreases s.len(),
{
    if i == s.len() - 1 {
        assert(s.last() == s[i]);
    } else {
        assert(s.drop_last()[i] == s[i]);
        lemma_entries_map_at(s.drop_last(), i);
        assert(s.last().0 != s[i].0);
    }
}

/// Appending an entry for a fresh key inserts it into the denoted map.
proof fn lemma_entries_map_push<K, V>(s: Seq<(K, V)>, key: K, value: V)
    ensures
        entries_map(s.push((key, value))) == entries_map(s).insert(key, value),
{
    let s2 = s.push((key, value));
    assert(s2.drop_last() =~= s);
    assert(s2.last() == (key, value));
}

/// What a completed insertion leaves in a cache map: an already-present
/// entry for the key survives unchanged, otherwise the offered value goes
/// in. This is the whole insertion policy of the kernel caches.
pub open spec fn cache_after_insert<K, V>(m: Map<K, V>, key: K, value: V) -> Map<K, V> {
    if m.contains_key(key) {
        m
    } else {
        m.insert(key, value)
    }
}

/// The CPU kernel cache: a mapping from a shape key to a shared,
/// already-compiled kernel entry of type `V`.
pub struct JitCache<V> {
    entries: Vec<(ShapeKey, V)>,
}

impl<V> View for JitCache<V> {
    type V = Map<ShapeKey, V>;

    closed spec fn view(&self) -> Map<ShapeKey, V> {
        entries_map(self.entries@)
    }
}

impl<V> JitCache<V> {
    /// The cache never holds two entries for one shape.
    pub closed spec fn wf(&self) -> bool {
        keys_unique(self.entries@)
    }

    /// An empty cache.
    pub fn new() -> (c: Self)
        ensures
            c@ == Map::<ShapeKey, V>::empty(),
            c.wf(),
    {
        JitCache { entries: Vec::new() }
    }

    /// Looks a shape up, returning a borrow of its cached entry on a hit.
    pub fn get(&self, key: ShapeKey) -> (r: Option<&V>)
        requires
            self.wf(),
        ensures
            match r {
                Some(v) => self@.contains_key(key) && *v == self@[key],
                None => !self@.contains_key(key),
            },
    {
        let mut i: usize = 0;
        let count = self.entries.len();
        while i < count
            invariant
                count == self.entries@.len(),
                0 <= i <= count,
                self.wf(),
                forall|j: int| 0 <= j < i ==> (#[trigger] self.entries@[j]).0 != key,
            decreases count - i,
        {
            let pair = &self.entries[i];
            if pair.0 == key {
                proof {
                    lemma_entries_map_at(self.entries@, i as int);
                }
                return Some(&pair.1);
            }
            i = i + 1;
        }
        proof {
            lemma_entries_map_contains(self.entries@, key);
        }
        None
    }

    /// Offers a freshly built entry for a shape. If the shape is still
    /// absent the entry goes in and `true` comes back; if another entry
    /// for the same shape arrived first, the cache is left unchanged and
    /// the offer is declined — the first inserter wins.
    pub fn insert_if_absent(&mut self, key: ShapeKey, value: V) -> (inserted: bool)
        requires
            old(self).wf(),
        ensures
            final(self).wf(),
            inserted == !old(self)@.contains_key(key),
            final(self)@ == cache_after_insert(old(self)@, key, value),
    {
        let already = self.get(key).is_some();
        if already {
            return false;
        }
        proof {
            lemma_entries_map_contains(self.entries@, key);
            lemma_entries_map_push(self.entries@, key, value);
        }
        self.entries.push((key, value));
        true
    }
}

/// Convergence: once any compilation attempt for a shape has completed
/// and its entry is in, every later racing insertion for the same shape is
/// discarded, so all callers observe the one entry that got in first.
pub proof fn lemma_cache_convergence<V>(m: Map<ShapeKey, V>, key: ShapeKey, first: V, second: V)
    ensures
        cache_after_insert(m, key, first).contains_key(key),
        !m.contains_key(key) ==> cache_after_insert(m, key, first)[key] == first,
        cache_after_insert(cache_after_insert(m, key, first), key, second) == cache_after_insert(
            m,
            key,
            first,
        ),
{
}

/// Distinctness: entries for different shapes are independent — inserting
/// under one shape neither creates nor changes the entry of another, so
/// distinct shapes keep their own distinct kernel entries.
pub proof fn lemma_cache_distinctness<V>(m: Map<ShapeKey, V>, key_a: ShapeKey, key_b: ShapeKey, value_b: V)
    requires
        key_a != key_b,
    ensures
        cache_after_insert(m, key_b, value_b).contains_key(key_a) == m.contains_key(key_a),
        m.contains_key(key_a) ==> cache_after_insert(m, key_b, value_b)[key_a] == m[key_a],
{
}

} // verus!
