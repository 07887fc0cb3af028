//! A store of values by key, each with the time it was stored and a
//! shared time-to-live. A store may drop its expired entries when a new
//! value is stored: always, never, or once it holds more than a given
//! number of entries.
//!
//! Times are nanosecond readings of a monotonic clock, handed in by the
//! caller.
use vstd::prelude::*;
use crate::text::str_eq;
use crate::tile_cache::{is_fresh, still_fresh};

verus! {

/// An entry as the contracts see it: key, value, time stored.
pub type Entry<KV, V> = (KV, V, u64);

/// The entries of `s` whose key is not `k`, in order.
pub open spec fn without<KV, V>(s: Seq<Entry<KV, V>>, k: KV) -> Seq<Entry<KV, V>>
    decreases s.len(),
{
    if s.len() == 0 {
        Seq::empty()
    } else {
        let r = without(s.drop_last(), k);
        if s.last().0 == k {
            r
        } else {
            r.push(s.last())
        }
    }
}

/// The entries of `s` still fresh at `now`, in order.
pub open spec fn fresh_only<KV, V>(s: Seq<Entry<KV, V>>, now: u64, ttl: u64) -> Seq<Entry<KV, V>>
    decreases s.len(),
{
    if s.len() == 0 {
        Seq::empty()
    } else {
        let r = fresh_only(s.drop_last(), now, ttl);
        if is_fresh(s.last().2, now, ttl) {
            r.push(s.last())
        } else {
            r
        }
    }
}

/// The value and store time of the last entry of `s` with key `k`.
pub open spec fn find<KV, V>(s: Seq<Entry<KV, V>>, k: KV) -> Option<(V, u64)>
    decreases s.len(),
{
    if s.len() == 0 {
        None
    } else if s.last().0 == k {
        Some((s.last().1, s.last().2))
    } else {
        find(s.drop_last(), k)
    }
}

/// Whether a store that holds `len` entries drops its expired ones before
/// storing: never for `None`, else once it holds more than `limit`.
pub open spec fn prunes(len: nat, limit: Option<usize>) -> bool {
    match limit {
        Some(n) => len > n,
        None => false,
    }
}

/// The entries after storing `v` under `k` at `now`: expired entries are
/// dropped first when `prunes` says so; any entry with key `k` is replaced.
pub open spec fn stored<KV, V>(
    s: Seq<Entry<KV, V>>,
    k: KV,
    v: V,
    now: u64,
    ttl: u64,
    limit: Option<usize>,
) -> Seq<Entry<KV, V>> {
    let pruned = if prunes(s.len(), limit) {
        fresh_only(s, now, ttl)
    } else {
        s
    };
    without(pruned, k).push((k, v, now))
}

/// The (key, age in whole seconds) of each entry of `s` still fresh at
/// `now`, in order.
pub open spec fn fresh_ages<KV, V>(s: Seq<Entry<KV, V>>, now: u64, ttl: u64) -> Seq<(KV, u64)> {
    fresh_only(s, now, ttl).map_values(|e: Entry<KV, V>| (e.0, age_secs(e.2, now)))
}

/// Whole seconds from `stored` to `now`, 0 when `now` is earlier.
pub open spec fn age_secs(stored: u64, now: u64) -> u64 {
    if now >= stored {
        ((now - stored) / 1_000_000_000) as u64
    } else {
        0
    }
}

/// A key type whose equality can be decided at run time.
pub trait CacheKey: View + Sized {
    /// Whether the two keys are the same.
    fn same_key(&self, other: &Self) -> (r: bool)
        ensures
            r == (self@ == other@),
    ;
}

impl CacheKey for String {
    fn same_key(&self, other: &Self) -> (r: bool) {
        str_eq(self.as_str(), other.as_str())
    }
}

impl CacheKey for (String, String, String, u32) {
    fn same_key(&self, other: &Self) -> (r: bool) {
        str_eq(self.0.as_str(), other.0.as_str()) && str_eq(self.1.as_str(), other.1.as_str())
            && str_eq(self.2.as_str(), other.2.as_str()) && self.3 == other.3
    }
}

/// Whether no two entries of `s` have the same key.
pub open spec fn distinct_keys<KV, V>(s: Seq<Entry<KV, V>>) -> bool {
    forall|i: int, j: int| 0 <= i < j < s.len() ==> #[trigger] s[i].0 != #[trigger] s[j].0
}

/// Whether some entry of `s` has key `k`.
pub open spec fn has_key<KV, V>(s: Seq<Entry<KV, V>>, k: KV) -> bool {
    exists|i: int| 0 <= i < s.len() && #[trigger] s[i].0 == k
}

/// What a request for a value that may have to be downloaded does next.
#[derive(Debug, Clone, Copy, PartialEq, Eq, Structural)]
pub enum FetchStep {
    /// Use the fresh value in the cache.
    UseCached,
    /// Another request is downloading it: wait, then look in the cache again.
    WaitForOther,
    /// Mark the key as in flight and download it.
    StartDownload,
}

/// The next step of a request: a fresh cached value is used; else a
/// download already in flight for the key is waited for; else this request
/// downloads, so that one download serves every request for a key.
pub open spec fn next_fetch_step(cached: bool, in_flight: bool) -> FetchStep {
    if cached {
        FetchStep::UseCached
    } else if in_flight {
        FetchStep::WaitForOther
    } else {
        FetchStep::StartDownload
    }
}

/// The next step of a request (see `next_fetch_step`).
pub fn fetch_step(cached: bool, in_flight: bool) -> (r: FetchStep)
    ensures
        r == next_fetch_step(cached, in_flight),
{
    if cached {
        FetchStep::UseCached
    } else if in_flight {
        FetchStep::WaitForOther
    } else {
        FetchStep::StartDownload
    }
}

/// Values by key, each with the time it was stored; no key is held twice.
pub struct KeyedCache<K: CacheKey, V> {
    entries: Vec<(K, V, u64)>,
    ttl_secs: u64,
    prune_above: Option<usize>,
}

impl<K: CacheKey, V> KeyedCache<K, V> {
    /// The entries, oldest store first.
    pub closed spec fn view(&self) -> Seq<Entry<K::V, V>> {
        self.entries@.map_values(|e: (K, V, u64)| (e.0@, e.1, e.2))
    }

    /// The time-to-live in seconds.
    pub closed spec fn ttl(&self) -> u64 {
        self.ttl_secs
    }

    /// No key is held twice.
    #[verifier::type_invariant]
    spec fn keys_held_once(&self) -> bool {
        distinct_keys(self.view())
    }

    /// When a store drops expired entries first (see `prunes`).
    pub closed spec fn limit(&self) -> Option<usize> {
        self.prune_above
    }

    /// An empty store whose entries live `ttl_secs` seconds and which drops
    /// expired entries on a store as `prune_above` says (see `prunes`).
    pub fn new(ttl_secs: u64, prune_above: Option<usize>) -> (r: Self)
        ensures
            r.view() == Seq::<Entry<K::V, V>>::empty(),
            r.ttl() == ttl_secs,
            r.limit() == prune_above,
    {
        let entries: Vec<(K, V, u64)> = Vec::new();
        assert(entries@.map_values(|e: (K, V, u64)| (e.0@, e.1, e.2)) =~= Seq::<Entry<K::V, V>>::empty());
        KeyedCache { entries, ttl_secs, prune_above }
    }

    /// How many entries are held.
    pub fn len(&self) -> (r: usize)
        ensures
            r == self.view().len(),
    {
        self.entries.len()
    }

    /// The entry at `i`, oldest store first.
    pub fn entry(&self, i: usize) -> (r: (&K, &V, u64))
        requires
            i < self.view().len(),
        ensures
            r.0@ == self.view()[i as int].0,
            *r.1 == self.view()[i as int].1,
            r.2 == self.view()[i as int].2,
    {
        let e = &self.entries[i];
        (&e.0, &e.1, e.2)
    }

    /// The value stored under `key`, if it is still fresh at `now`.
    pub fn get(&self, key: &K, now: u64) -> (r: Option<&V>)
        ensures
            match find(self.view(), key@) {
                Some((v, t)) => if is_fresh(t, now, self.ttl()) {
                    r == Some(&v)
                } else {
                    r is None
                },
                None => r is None,
            },
    {
        let ghost s = self.view();
        let mut i = self.entries.len();
        assert(s.take(s.len() as int) =~= s);
        while i > 0
            invariant
                i <= self.entries@.len(),
                s == self.view(),
                find(s, key@) == find(s.take(i as int), key@),
            decreases i,
        {
            proof {
                assert(s.take(i as int).drop_last() =~= s.take(i - 1));
                assert(s.take(i as int).last() == s[i - 1]);
            }
            if self.entries[i - 1].0.same_key(key) {
                if still_fresh(self.entries[i - 1].2, now, self.ttl_secs) {
                    return Some(&self.entries[i - 1].1);
                }
                return None;
            }
            i -= 1;
        }
        None
    }

    /// Store `data` under `key` at `now`, replacing what was stored under
    /// that key; expired entries go first when `prunes` says so.
    pub fn put(&mut self, key: K, data: V, now: u64)
        ensures
            distinct_keys(final(self).view()),
            final(self).view() == stored(old(self).view(), key@, data, now, old(self).ttl(), old(self).limit()),
            final(self).ttl() == old(self).ttl(),
            final(self).limit() == old(self).limit(),
    {
        proof {
            use_type_invariant(&*self);
        }
        let ghost s0 = self.view();
        let mut old_entries: Vec<(K, V, u64)> = Vec::new();
        std::mem::swap(&mut old_entries, &mut self.entries);
        let ghost olds = old_entries@.map_values(|e: (K, V, u64)| (e.0@, e.1, e.2));
        assert(olds == s0);
        let prune = match self.prune_above {
            Some(n) => old_entries.len() > n,
            None => false,
        };
        let mut kept: Vec<(K, V, u64)> = Vec::new();
        let ghost mut taken: int = 0;
        while old_entries.len() > 0
            invariant
                olds == s0,
                0 <= taken <= s0.len(),
                old_entries@.map_values(|e: (K, V, u64)| (e.0@, e.1, e.2)) == s0.skip(taken),
                kept@.map_values(|e: (K, V, u64)| (e.0@, e.1, e.2)) == (if prune {
                    fresh_only(s0.take(taken), now, self.ttl_secs)
                } else {
                    s0.take(taken)
                }),
                prune == prunes(s0.len(), self.prune_above),
            decreases old_entries.len(),
        {
            let ghost rest = old_entries@.map_values(|e: (K, V, u64)| (e.0@, e.1, e.2));
            let ghost before = kept@.map_values(|e: (K, V, u64)| (e.0@, e.1, e.2));
            assert(rest.len() == old_entries@.len());
            assert(taken < s0.len());
            assert(rest[0] == s0.skip(taken)[0]);
            let ghost pre = old_entries@;
            let e = old_entries.remove(0);
            proof {
                assert(rest[0] == s0[taken]);
                assert(s0.take(taken + 1).drop_last() =~= s0.take(taken));
                assert(s0.take(taken + 1).last() == s0[taken]);
                assert(old_entries@ =~= pre.subrange(1, pre.len() as int));
                let now_rest = old_entries@.map_values(|e: (K, V, u64)| (e.0@, e.1, e.2));
                assert forall|j: int| 0 <= j < now_rest.len() implies now_rest[j] == s0.skip(taken + 1)[j] by {
                    assert(old_entries@[j] == pre[j + 1]);
                    assert(rest[j + 1] == s0.skip(taken)[j + 1]);
                }
                assert(now_rest =~= s0.skip(taken + 1));
            }
            if !prune || still_fresh(e.2, now, self.ttl_secs) {
                kept.push(e);
                proof {
                    assert(kept@.map_values(|e: (K, V, u64)| (e.0@, e.1, e.2)) =~= before.push(s0[taken]));
                }
            }
            proof {
                taken = taken + 1;
            }
        }
        proof {
            assert(s0.take(s0.len() as int) =~= s0);
        }
        let ghost pruned = kept@.map_values(|e: (K, V, u64)| (e.0@, e.1, e.2));
        let mut out: Vec<(K, V, u64)> = Vec::new();
        let ghost mut done: int = 0;
        while kept.len() > 0
            invariant
                0 <= done <= pruned.len(),
                kept@.map_values(|e: (K, V, u64)| (e.0@, e.1, e.2)) == pruned.skip(done),
                out@.map_values(|e: (K, V, u64)| (e.0@, e.1, e.2)) == without(pruned.take(done), key@),
            decreases kept.len(),
        {
            let ghost rest = kept@.map_values(|e: (K, V, u64)| (e.0@, e.1, e.2));
            let ghost before = out@.map_values(|e: (K, V, u64)| (e.0@, e.1, e.2));
            assert(rest.len() == kept@.len());
            assert(done < pruned.len());
            assert(rest[0] == pruned.skip(done)[0]);
            let ghost pre = kept@;
            let e = kept.remove(0);
            proof {
                assert(rest[0] == pruned[done]);
                assert(pruned.take(done + 1).drop_last() =~= pruned.take(done));
                assert(pruned.take(done + 1).last() == pruned[done]);
                assert(kept@ =~= pre.subrange(1, pre.len() as int));
                let now_rest = kept@.map_values(|e: (K, V, u64)| (e.0@, e.1, e.2));
                assert forall|j: int| 0 <= j < now_rest.len() implies now_rest[j] == pruned.skip(done + 1)[j] by {
                    assert(kept@[j] == pre[j + 1]);
                    assert(rest[j + 1] == pruned.skip(done)[j + 1]);
                }
                assert(now_rest =~= pruned.skip(done + 1));
            }
            if !e.0.same_key(&key) {
                out.push(e);
                proof {
                    assert(out@.map_values(|e: (K, V, u64)| (e.0@, e.1, e.2)) =~= before.push(pruned[done]));
                }
            }
            proof {
                done = done + 1;
            }
        }
        proof {
            assert(pruned.take(pruned.len() as int) =~= pruned);
        }
        let ghost w = out@.map_values(|e: (K, V, u64)| (e.0@, e.1, e.2));
        let ghost kv = key@;
        out.push((key, data, now));
        proof {
            assert(out@.map_values(|e: (K, V, u64)| (e.0@, e.1, e.2)) =~= w.push((kv, data, now)));
        }
        proof {
            law_store_keeps_keys_once(s0, kv, data, now, self.ttl_secs, self.prune_above);
        }
        self.entries = out;
    }
}


/// Whole seconds from `stored` to `now`, as `age_secs` says.
pub fn seconds_since(stored: u64, now: u64) -> (r: u64)
    ensures
        r == age_secs(stored, now),
{
    if now >= stored {
        (now - stored) / 1_000_000_000
    } else {
        0
    }
}

/// `fresh_only` of a prefix one entry longer.
pub proof fn lemma_fresh_only_step<KV, V>(s: Seq<Entry<KV, V>>, i: int, now: u64, ttl: u64)
    requires
        0 <= i < s.len(),
    ensures
        fresh_only(s.take(i + 1), now, ttl) == if is_fresh(s[i].2, now, ttl) {
            fresh_only(s.take(i), now, ttl).push(s[i])
        } else {
            fresh_only(s.take(i), now, ttl)
        },
{
    assert(s.take(i + 1).drop_last() =~= s.take(i));
    assert(s.take(i + 1).last() == s[i]);
}

impl<V> KeyedCache<String, V> {
    /// Each key still fresh at `now`, with its age in whole seconds, oldest
    /// store first.
    pub fn fresh_ages(&self, now: u64) -> (r: Vec<(String, u64)>)
        ensures
            r@.map_values(|p: (String, u64)| (p.0@, p.1)) == fresh_ages(self.view(), now, self.ttl()),
    {
        let ghost s = self.view();
        let mut out: Vec<(String, u64)> = Vec::new();
        let mut i: usize = 0;
        while i < self.len()
            invariant
                i <= s.len(),
                s == self.view(),
                out@.map_values(|p: (String, u64)| (p.0@, p.1))
                    == fresh_only(s.take(i as int), now, self.ttl()).map_values(
                    |e: Entry<Seq<char>, V>| (e.0, age_secs(e.2, now)),
                ),
            decreases s.len() - i,
        {
            proof {
                lemma_fresh_only_step(s, i as int, now, self.ttl());
            }
            let (k, _v, t) = self.entry(i);
            if still_fresh(t, now, self.ttl_secs) {
                let ghost before = out@.map_values(|p: (String, u64)| (p.0@, p.1));
                out.push((k.clone(), seconds_since(t, now)));
                proof {
                    assert(out@.map_values(|p: (String, u64)| (p.0@, p.1)) =~= before.push(
                        (s[i as int].0, age_secs(s[i as int].2, now)),
                    ));
                    assert(fresh_only(s.take(i as int), now, self.ttl()).push(s[i as int]).map_values(
                        |e: Entry<Seq<char>, V>| (e.0, age_secs(e.2, now)),
                    ) =~= before.push((s[i as int].0, age_secs(s[i as int].2, now))));
                }
            }
            i += 1;
        }
        proof {
            assert(s.take(s.len() as int) =~= s);
        }
        out
    }
}

} // verus!

verus! {

/// Dropping the entries of one key leaves the lookups of every other key.
proof fn lemma_find_without<KV, V>(s: Seq<Entry<KV, V>>, k: KV, k2: KV)
    requires
        k2 != k,
    ensures
        find(without(s, k), k2) == find(s, k2),
    decreases s.len(),
{
    if s.len() > 0 {
        lemma_find_without(s.drop_last(), k, k2);
        let r = without(s.drop_last(), k);
        if s.last().0 != k {
            assert(r.push(s.last()).drop_last() =~= r);
        }
    }
}

/// Dropping expired entries leaves a lookup whose entry is fresh, or that
/// finds nothing.
proof fn lemma_find_fresh_only<KV, V>(s: Seq<Entry<KV, V>>, k: KV, now: u64, ttl: u64)
    requires
        match find(s, k) {
            Some((v, t)) => is_fresh(t, now, ttl),
            None => true,
        },
    ensures
        find(fresh_only(s, now, ttl), k) == find(s, k),
    decreases s.len(),
{
    if s.len() > 0 {
        let r = fresh_only(s.drop_last(), now, ttl);
        if is_fresh(s.last().2, now, ttl) {
            assert(r.push(s.last()).drop_last() =~= r);
        }
        if s.last().0 != k {
            lemma_find_fresh_only(s.drop_last(), k, now, ttl);
        } else {
            assert(is_fresh(s.last().2, now, ttl));
        }
    }
}

/// A value just stored is what a lookup of its key finds, stored now.
pub proof fn law_get_after_put<KV, V>(
    s: Seq<Entry<KV, V>>,
    k: KV,
    v: V,
    now: u64,
    ttl: u64,
    limit: Option<usize>,
)
    ensures
        find(stored(s, k, v, now, ttl, limit), k) == Some((v, now)),
{
}

/// Storing under one key leaves the lookup of any other key, unless that
/// key's entry had expired and the store dropped expired entries.
pub proof fn law_put_keeps_other_keys<KV, V>(
    s: Seq<Entry<KV, V>>,
    k: KV,
    v: V,
    now: u64,
    ttl: u64,
    limit: Option<usize>,
    k2: KV,
)
    requires
        k2 != k,
        prunes(s.len(), limit) ==> match find(s, k2) {
            Some((v2, t2)) => is_fresh(t2, now, ttl),
            None => true,
        },
    ensures
        find(stored(s, k, v, now, ttl, limit), k2) == find(s, k2),
{
    let pruned = if prunes(s.len(), limit) {
        fresh_only(s, now, ttl)
    } else {
        s
    };
    if prunes(s.len(), limit) {
        lemma_find_fresh_only(s, k2, now, ttl);
    }
    lemma_find_without(pruned, k, k2);
    let w = without(pruned, k);
    assert(w.push((k, v, now)).drop_last() =~= w);
}

/// Dropping the entries of key `k` leaves no entry of `k`, keeps only
/// keys that were held, and keeps keys held once.
proof fn lemma_without_keys<KV, V>(s: Seq<Entry<KV, V>>, k: KV)
    ensures
        !has_key(without(s, k), k),
        forall|i: int| 0 <= i < without(s, k).len() ==> has_key(s, #[trigger] without(s, k)[i].0),
        distinct_keys(s) ==> distinct_keys(without(s, k)),
    decreases s.len(),
{
    if s.len() > 0 {
        let t = s.drop_last();
        lemma_without_keys(t, k);
        let w = without(t, k);
        assert forall|i: int| 0 <= i < w.len() implies has_key(s, #[trigger] w[i].0) by {
            let j = choose|j: int| 0 <= j < t.len() && #[trigger] t[j].0 == w[i].0;
            assert(s[j].0 == w[i].0);
        }
        if s.last().0 != k {
            let r = w.push(s.last());
            assert(without(s, k) == r);
            assert forall|i: int| 0 <= i < r.len() implies has_key(s, #[trigger] r[i].0) by {
                if i == r.len() - 1 {
                    assert(s[s.len() - 1].0 == r[i].0);
                } else {
                    assert(r[i] == w[i]);
                }
            }
            assert(!has_key(r, k)) by {
                if has_key(r, k) {
                    let i = choose|i: int| 0 <= i < r.len() && #[trigger] r[i].0 == k;
                    if i < w.len() {
                        assert(r[i] == w[i]);
                    }
                }
            }
            if distinct_keys(s) {
                assert forall|i: int, j: int| 0 <= i < j < t.len() implies #[trigger] t[i].0 != #[trigger] t[j].0 by {
                    assert(t[i] == s[i] && t[j] == s[j]);
                }
                assert forall|i: int, j: int| 0 <= i < j < r.len() implies #[trigger] r[i].0 != #[trigger] r[j].0 by {
                    if j == r.len() - 1 {
                        assert(r[i] == w[i]);
                        let m = choose|m: int| 0 <= m < t.len() && #[trigger] t[m].0 == w[i].0;
                        assert(s[m] == t[m]);
                        assert(s[s.len() - 1] == s.last());
                    } else {
                        assert(r[i] == w[i] && r[j] == w[j]);
                    }
                }
            }
        }
    }
}

/// Dropping expired entries keeps only keys that were held, and keeps
/// keys held once.
proof fn lemma_fresh_only_keys<KV, V>(s: Seq<Entry<KV, V>>, now: u64, ttl: u64)
    ensures
        forall|i: int| 0 <= i < fresh_only(s, now, ttl).len() ==> has_key(s, #[trigger] fresh_only(s, now, ttl)[i].0),
        distinct_keys(s) ==> distinct_keys(fresh_only(s, now, ttl)),
    decreases s.len(),
{
    if s.len() > 0 {
        let t = s.drop_last();
        lemma_fresh_only_keys(t, now, ttl);
        let w = fresh_only(t, now, ttl);
        assert forall|i: int| 0 <= i < w.len() implies has_key(s, #[trigger] w[i].0) by {
            let j = choose|j: int| 0 <= j < t.len() && #[trigger] t[j].0 == w[i].0;
            assert(s[j].0 == w[i].0);
        }
        if is_fresh(s.last().2, now, ttl) {
            let r = w.push(s.last());
            assert(fresh_only(s, now, ttl) == r);
            assert forall|i: int| 0 <= i < r.len() implies has_key(s, #[trigger] r[i].0) by {
                if i == r.len() - 1 {
                    assert(s[s.len() - 1].0 == r[i].0);
                } else {
                    assert(r[i] == w[i]);
                }
            }
            if distinct_keys(s) {
                assert forall|i: int, j: int| 0 <= i < j < t.len() implies #[trigger] t[i].0 != #[trigger] t[j].0 by {
                    assert(t[i] == s[i] && t[j] == s[j]);
                }
                assert forall|i: int, j: int| 0 <= i < j < r.len() implies #[trigger] r[i].0 != #[trigger] r[j].0 by {
                    if j == r.len() - 1 {
                        assert(r[i] == w[i]);
                        let m = choose|m: int| 0 <= m < t.len() && #[trigger] t[m].0 == w[i].0;
                        assert(s[m] == t[m]);
                        assert(s[s.len() - 1] == s.last());
                    } else {
                        assert(r[i] == w[i] && r[j] == w[j]);
                    }
                }
            }
        }
    }
}

/// A store never holds a key twice: storing into entries whose keys are
/// held once gives entries whose keys are held once.
pub proof fn law_store_keeps_keys_once<KV, V>(
    s: Seq<Entry<KV, V>>,
    k: KV,
    v: V,
    now: u64,
    ttl: u64,
    limit: Option<usize>,
)
    requires
        distinct_keys(s),
    ensures
        distinct_keys(stored(s, k, v, now, ttl, limit)),
{
    let pruned = if prunes(s.len(), limit) {
        fresh_only(s, now, ttl)
    } else {
        s
    };
    lemma_fresh_only_keys(s, now, ttl);
    lemma_without_keys(pruned, k);
    let w = without(pruned, k);
    let r = w.push((k, v, now));
    assert forall|i: int, j: int| 0 <= i < j < r.len() implies #[trigger] r[i].0 != #[trigger] r[j].0 by {
        if j == r.len() - 1 {
            assert(r[i] == w[i]);
        } else {
            assert(r[i] == w[i] && r[j] == w[j]);
        }
    }
}

/// With keys held once, a key is among the fresh entries exactly when a
/// lookup of it finds an entry that is still fresh.
proof fn lemma_fresh_has_key<KV, V>(s: Seq<Entry<KV, V>>, k: KV, now: u64, ttl: u64)
    requires
        distinct_keys(s),
    ensures
        has_key(fresh_only(s, now, ttl), k) <==> match find(s, k) {
            Some((v, t)) => is_fresh(t, now, ttl),
            None => false,
        },
    decreases s.len(),
{
    if s.len() > 0 {
        let t = s.drop_last();
        assert forall|i: int, j: int| 0 <= i < j < t.len() implies #[trigger] t[i].0 != #[trigger] t[j].0 by {
            assert(t[i] == s[i] && t[j] == s[j]);
        }
        lemma_fresh_has_key(t, k, now, ttl);
        lemma_fresh_only_keys(t, now, ttl);
        let w = fresh_only(t, now, ttl);
        let last = s.last();
        if is_fresh(last.2, now, ttl) {
            let r = w.push(last);
            if has_key(w, k) {
                let i = choose|i: int| 0 <= i < w.len() && #[trigger] w[i].0 == k;
                assert(r[i] == w[i]);
            }
            if has_key(r, k) && last.0 != k {
                let i = choose|i: int| 0 <= i < r.len() && #[trigger] r[i].0 == k;
                assert(r[i] == w[i]);
            }
            if last.0 == k {
                assert(r[r.len() - 1].0 == k);
            }
        }
        if last.0 == k && has_key(w, k) {
            let i = choose|i: int| 0 <= i < w.len() && #[trigger] w[i].0 == k;
            let j = choose|j: int| 0 <= j < t.len() && #[trigger] t[j].0 == w[i].0;
            assert(s[j] == t[j]);
            assert(s[s.len() - 1] == last);
        }
    }
}

/// The fresh listing and lookups agree: with keys held once, a key is
/// listed among the fresh entries at `now` exactly when a lookup of it
/// finds an entry still fresh at `now`.
pub proof fn law_listing_matches_lookup<KV, V>(s: Seq<Entry<KV, V>>, k: KV, now: u64, ttl: u64)
    requires
        distinct_keys(s),
    ensures
        (exists|i: int| 0 <= i < fresh_ages(s, now, ttl).len() && #[trigger] fresh_ages(s, now, ttl)[i].0 == k)
            <==> match find(s, k) {
            Some((v, t)) => is_fresh(t, now, ttl),
            None => false,
        },
{
    lemma_fresh_has_key(s, k, now, ttl);
    let f = fresh_only(s, now, ttl);
    let fa = fresh_ages(s, now, ttl);
    assert forall|i: int| 0 <= i < fa.len() implies #[trigger] fa[i].0 == f[i].0 by {}
    if has_key(f, k) {
        let i = choose|i: int| 0 <= i < f.len() && #[trigger] f[i].0 == k;
        assert(fa[i].0 == k);
    }
}

} // verus!
