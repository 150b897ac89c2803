//! In-memory cache of authenticated provider sessions, keyed by
//! `(session id, provider id)`.
//!
//! Entries live until they are evicted explicitly (when credentials change or
//! a session is unconfigured); there is no expiry and no capacity bound.
//! Values are shared handles (`Arc`), so a lookup hands out the very session
//! that was stored.

use std::sync::Arc;

use vstd::prelude::*;

use crate::provider::types::ProviderId;

verus! {

/// Another handle to the value behind `a` (`Arc::clone`).
#[verifier::external_body]
fn share<V>(a: &Arc<V>) -> (r: Arc<V>)
    ensures
        r == *a,
{
    Arc::clone(a)
}

/// One stored session with the key it was stored under.
struct CacheEntry<V> {
    session_id: String,
    provider: ProviderId,
    value: Arc<V>,
}

spec fn key_of<V>(e: CacheEntry<V>) -> (Seq<char>, ProviderId) {
    (e.session_id@, e.provider)
}

spec fn value_of<V>(e: CacheEntry<V>) -> V {
    *e.value
}

/// No key occurs twice among the entries.
spec fn distinct_keys<V>(s: Seq<CacheEntry<V>>) -> bool {
    forall|i: int, j: int|
        0 <= i < j < s.len() ==> #[trigger] key_of(s[i]) != #[trigger] key_of(s[j])
}

spec fn holds_key<V>(s: Seq<CacheEntry<V>>, k: (Seq<char>, ProviderId)) -> bool {
    exists|i: int| 0 <= i < s.len() && key_of(#[trigger] s[i]) == k
}

spec fn slot_of<V>(s: Seq<CacheEntry<V>>, k: (Seq<char>, ProviderId)) -> int {
    choose|i: int| 0 <= i < s.len() && key_of(#[trigger] s[i]) == k
}

/// The key-value map that a list of entries with distinct keys stands for.
spec fn map_of<V>(s: Seq<CacheEntry<V>>) -> Map<(Seq<char>, ProviderId), V> {
    Map::new(|k: (Seq<char>, ProviderId)| holds_key(s, k), |k: (Seq<char>, ProviderId)| *s[slot_of(s, k)].value)
}

proof fn lemma_slot_of<V>(s: Seq<CacheEntry<V>>, j: int)
    requires
        distinct_keys(s),
        0 <= j < s.len(),
    ensures
        holds_key(s, key_of(s[j])),
        slot_of(s, key_of(s[j])) == j,
        map_of(s)[key_of(s[j])] == *s[j].value,
{
    let k = key_of(s[j]);
    assert(0 <= j < s.len() && key_of(s[j]) == k);
    let c = slot_of(s, k);
    if c != j {
        if c < j {
            assert(key_of(s[c]) != key_of(s[j]));
        } else {
            assert(key_of(s[j]) != key_of(s[c]));
        }
    }
}

/// Replacing the value of an existing key updates that key only.
proof fn lemma_map_update<V>(s: Seq<CacheEntry<V>>, i: int, e: CacheEntry<V>)
    requires
        distinct_keys(s),
        0 <= i < s.len(),
        key_of(e) == key_of(s[i]),
    ensures
        distinct_keys(s.update(i, e)),
        map_of(s.update(i, e)) == map_of(s).insert(key_of(e), value_of(e)),
{
    let s2 = s.update(i, e);
    assert forall|a: int, b: int| 0 <= a < b < s2.len() implies #[trigger] key_of(s2[a]) != #[trigger] key_of(
        s2[b],
    ) by {
        assert(key_of(s2[a]) == key_of(s[a]));
        assert(key_of(s2[b]) == key_of(s[b]));
        assert(key_of(s[a]) != key_of(s[b]));
    }
    let m = map_of(s).insert(key_of(e), value_of(e));
    assert forall|k: (Seq<char>, ProviderId)| #[trigger] holds_key(s2, k) == m.dom().contains(k) by {
        if holds_key(s2, k) {
            let j = choose|j: int| 0 <= j < s2.len() && key_of(#[trigger] s2[j]) == k;
            assert(key_of(s[j]) == k);
        }
        if holds_key(s, k) {
            let j = choose|j: int| 0 <= j < s.len() && key_of(#[trigger] s[j]) == k;
            assert(key_of(s2[j]) == k);
        }
        if k == key_of(e) {
            assert(key_of(s2[i]) == k);
        }
    }
    assert forall|k: (Seq<char>, ProviderId)| #[trigger] m.dom().contains(k) implies map_of(s2)[k] == m[k] by {
        assert(holds_key(s2, k));
        let j = choose|j: int| 0 <= j < s2.len() && key_of(#[trigger] s2[j]) == k;
        lemma_slot_of(s2, j);
        if j != i {
            assert(key_of(s[j]) == k);
            lemma_slot_of(s, j);
        }
    }
    assert(map_of(s2) =~= m);
}

/// Appending an entry with a fresh key adds that key only.
proof fn lemma_map_push<V>(s: Seq<CacheEntry<V>>, e: CacheEntry<V>)
    requires
        distinct_keys(s),
        !holds_key(s, key_of(e)),
    ensures
        distinct_keys(s.push(e)),
        map_of(s.push(e)) == map_of(s).insert(key_of(e), value_of(e)),
{
    let s2 = s.push(e);
    let n = s.len() as int;
    assert forall|a: int, b: int| 0 <= a < b < s2.len() implies #[trigger] key_of(s2[a]) != #[trigger] key_of(
        s2[b],
    ) by {
        if b == n {
            assert(s2[a] == s[a]);
            if key_of(s[a]) == key_of(e) {
                assert(holds_key(s, key_of(e)));
            }
        } else {
            assert(s2[a] == s[a] && s2[b] == s[b]);
        }
    }
    let m = map_of(s).insert(key_of(e), value_of(e));
    assert forall|k: (Seq<char>, ProviderId)| #[trigger] holds_key(s2, k) == m.dom().contains(k) by {
        if holds_key(s2, k) {
            let j = choose|j: int| 0 <= j < s2.len() && key_of(#[trigger] s2[j]) == k;
            if j < n {
                assert(s2[j] == s[j]);
                assert(holds_key(s, k));
            }
        }
        if holds_key(s, k) {
            let j = choose|j: int| 0 <= j < s.len() && key_of(#[trigger] s[j]) == k;
            assert(s2[j] == s[j]);
            assert(holds_key(s2, k));
        }
        if k == key_of(e) {
            assert(key_of(s2[n]) == k);
        }
    }
    assert forall|k: (Seq<char>, ProviderId)| #[trigger] m.dom().contains(k) implies map_of(s2)[k] == m[k] by {
        assert(holds_key(s2, k));
        let j = choose|j: int| 0 <= j < s2.len() && key_of(#[trigger] s2[j]) == k;
        lemma_slot_of(s2, j);
        if j < n {
            assert(s2[j] == s[j]);
            lemma_slot_of(s, j);
        }
    }
    assert(map_of(s2) =~= m);
}

/// Removing the entry of a key removes that key only.
proof fn lemma_map_remove<V>(s: Seq<CacheEntry<V>>, i: int)
    requires
        distinct_keys(s),
        0 <= i < s.len(),
    ensures
        distinct_keys(s.remove(i)),
        map_of(s.remove(i)) == map_of(s).remove(key_of(s[i])),
{
    let s2 = s.remove(i);
    let k0 = key_of(s[i]);
    assert forall|a: int, b: int| 0 <= a < b < s2.len() implies #[trigger] key_of(s2[a]) != #[trigger] key_of(
        s2[b],
    ) by {
        let a0 = if a < i { a } else { a + 1 };
        let b0 = if b < i { b } else { b + 1 };
        assert(s2[a] == s[a0] && s2[b] == s[b0]);
        assert(key_of(s[a0]) != key_of(s[b0]));
    }
    let m = map_of(s).remove(k0);
    assert forall|k: (Seq<char>, ProviderId)| #[trigger] holds_key(s2, k) == m.dom().contains(k) by {
        if holds_key(s2, k) {
            let j = choose|j: int| 0 <= j < s2.len() && key_of(#[trigger] s2[j]) == k;
            let j0 = if j < i { j } else { j + 1 };
            assert(s2[j] == s[j0]);
            assert(holds_key(s, k));
            if k == k0 {
                if j0 < i {
                    assert(key_of(s[j0]) != key_of(s[i]));
                } else {
                    assert(key_of(s[i]) != key_of(s[j0]));
                }
            }
        }
        if holds_key(s, k) && k != k0 {
            let j = choose|j: int| 0 <= j < s.len() && key_of(#[trigger] s[j]) == k;
            assert(j != i);
            let j2 = if j < i { j } else { j - 1 };
            assert(s2[j2] == s[j]);
            assert(holds_key(s2, k));
        }
    }
    assert forall|k: (Seq<char>, ProviderId)| #[trigger] m.dom().contains(k) implies map_of(s2)[k] == m[k] by {
        assert(holds_key(s2, k));
        let j = choose|j: int| 0 <= j < s2.len() && key_of(#[trigger] s2[j]) == k;
        lemma_slot_of(s2, j);
        let j0 = if j < i { j } else { j + 1 };
        assert(s2[j] == s[j0]);
        lemma_slot_of(s, j0);
    }
    assert(map_of(s2) =~= m);
}

/// Sessions shared across requests, at most one per `(session id, provider)`.
pub struct ProviderCache<V> {
    entries: Vec<CacheEntry<V>>,
}

impl<V> View for ProviderCache<V> {
    type V = Map<(Seq<char>, ProviderId), V>;

    closed spec fn view(&self) -> Map<(Seq<char>, ProviderId), V> {
        map_of(self.entries@)
    }
}

impl<V> Default for ProviderCache<V> {
    fn default() -> (r: Self)
        ensures
            r@ == Map::<(Seq<char>, ProviderId), V>::empty(),
    {
        Self::new()
    }
}

impl<V> ProviderCache<V> {
    #[verifier::type_invariant]
    spec fn keys_unique(self) -> bool {
        distinct_keys(self.entries@)
    }

    /// An empty cache.
    pub fn new() -> (r: Self)
        ensures
            r@ == Map::<(Seq<char>, ProviderId), V>::empty(),
    {
        let r = ProviderCache { entries: Vec::new() };
        assert(r@ =~= Map::<(Seq<char>, ProviderId), V>::empty());
        r
    }

    /// Position of the entry stored under `(session_id, provider)`.
    fn position(&self, session_id: &String, provider: ProviderId) -> (r: Option<usize>)
        ensures
            match r {
                Some(i) => i < self.entries@.len() && key_of(self.entries@[i as int]) == (
                    session_id@,
                    provider,
                ),
                None => !holds_key(self.entries@, (session_id@, provider)),
            },
    {
        let mut i: usize = 0;
        while i < self.entries.len()
            invariant
                i <= self.entries@.len(),
                forall|j: int| 0 <= j < i ==> key_of(#[trigger] self.entries@[j]) != (session_id@, provider),
            decreases self.entries@.len() - i,
        {
            let e = &self.entries[i];
            if e.provider == provider && e.session_id == *session_id {
                return Some(i);
            }
            i = i + 1;
        }
        None
    }

    /// The session stored under `(session_id, provider)`, if any.
    pub fn get(&self, session_id: &str, provider: ProviderId) -> (r: Option<Arc<V>>)
        ensures
            self@.dom().contains((session_id@, provider)) ==> (r matches Some(a) && *a == self@[(
                session_id@,
                provider,
            )]),
            !self@.dom().contains((session_id@, provider)) ==> r is None,
    {
        proof {
            use_type_invariant(self);
        }
        let key = session_id.to_owned();
        match self.position(&key, provider) {
            Some(i) => {
                proof {
                    lemma_slot_of(self.entries@, i as int);
                }
                Some(share(&self.entries[i].value))
            },
            None => None,
        }
    }

    /// Stores `value` under `(session_id, provider)`, replacing any session
    /// stored there, and hands back another handle to `value`.
    pub fn insert(&mut self, session_id: &str, provider: ProviderId, value: Arc<V>) -> (r: Arc<V>)
        ensures
            r == value,
            final(self)@ == old(self)@.insert((session_id@, provider), *value),
    {
        proof {
            use_type_invariant(&*self);
        }
        let returned = share(&value);
        let key = session_id.to_owned();
        let entry = CacheEntry { session_id: key.clone(), provider, value };
        match self.position(&key, provider) {
            Some(i) => {
                proof {
                    lemma_map_update(self.entries@, i as int, entry);
                }
                let mut entries: Vec<CacheEntry<V>> = Vec::new();
                std::mem::swap(&mut entries, &mut self.entries);
                entries.set(i, entry);
                self.entries = entries;
            },
            None => {
                proof {
                    lemma_map_push(self.entries@, entry);
                }
                let mut entries: Vec<CacheEntry<V>> = Vec::new();
                std::mem::swap(&mut entries, &mut self.entries);
                entries.push(entry);
                self.entries = entries;
            },
        }
        returned
    }

    /// Stores `candidate` only when nothing is stored under
    /// `(session_id, provider)`; the session stored first wins. Returns the
    /// session now in the cache for that key.
    pub fn get_or_insert(&mut self, session_id: &str, provider: ProviderId, candidate: Arc<V>) -> (r:
        Arc<V>)
        ensures
            old(self)@.dom().contains((session_id@, provider)) ==> {
                &&& final(self)@ == old(self)@
                &&& *r == old(self)@[(session_id@, provider)]
            },
            !old(self)@.dom().contains((session_id@, provider)) ==> {
                &&& final(self)@ == old(self)@.insert((session_id@, provider), *candidate)
                &&& r == candidate
            },
    {
        proof {
            use_type_invariant(&*self);
        }
        let key = session_id.to_owned();
        match self.position(&key, provider) {
            Some(i) => {
                proof {
                    lemma_slot_of(self.entries@, i as int);
                }
                share(&self.entries[i].value)
            },
            None => {
                let returned = share(&candidate);
                let entry = CacheEntry { session_id: key, provider, value: candidate };
                proof {
                    lemma_map_push(self.entries@, entry);
                }
                let mut entries: Vec<CacheEntry<V>> = Vec::new();
                std::mem::swap(&mut entries, &mut self.entries);
                entries.push(entry);
                self.entries = entries;
                returned
            },
        }
    }

    /// Removes the session stored under `(session_id, provider)`, if any.
    pub fn evict(&mut self, session_id: &str, provider: ProviderId)
        ensures
            final(self)@ == old(self)@.remove((session_id@, provider)),
    {
        proof {
            use_type_invariant(&*self);
        }
        let key = session_id.to_owned();
        match self.position(&key, provider) {
            Some(i) => {
                proof {
                    lemma_map_remove(self.entries@, i as int);
                }
                let mut entries: Vec<CacheEntry<V>> = Vec::new();
                std::mem::swap(&mut entries, &mut self.entries);
                entries.remove(i);
                self.entries = entries;
            },
            None => {
                assert(old(self)@.remove((session_id@, provider)) =~= old(self)@);
            },
        }
    }
}

/// Evicting a key leaves nothing stored under it, keeps every other key as
/// it was, and evicting it again changes nothing.
pub proof fn law_evict<V>(m: Map<(Seq<char>, ProviderId), V>, k: (Seq<char>, ProviderId))
    ensures
        !m.remove(k).dom().contains(k),
        forall|q: (Seq<char>, ProviderId)|
            q != k ==> (#[trigger] m.remove(k).dom().contains(q) == m.dom().contains(q) && (m.dom().contains(q)
                ==> m.remove(k)[q] == m[q])),
        m.remove(k).remove(k) == m.remove(k),
{
    assert(m.remove(k).remove(k) =~= m.remove(k));
}

/// A session stored and then evicted is gone, and the cache is what
/// evicting alone would have left: storing leaves no trace.
pub proof fn law_evict_undoes_insert<V>(m: Map<(Seq<char>, ProviderId), V>, k: (Seq<char>, ProviderId), v: V)
    ensures
        m.insert(k, v).remove(k) == m.remove(k),
        !m.insert(k, v).remove(k).dom().contains(k),
{
    assert(m.insert(k, v).remove(k) =~= m.remove(k));
}

} // verus!
