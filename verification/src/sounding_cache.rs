//! Cache of fetched soundings by key, with a time-to-live. Expired entries
//! are dropped when a store finds more than a hundred entries.
//!
//! Times are nanosecond readings of a monotonic clock, handed in by the
//! caller.
use vstd::prelude::*;
use crate::keyed_cache::{distinct_keys, find, stored, Entry, KeyedCache};
use crate::text::owned;
use crate::tile_cache::is_fresh;

verus! {

/// A cache of soundings (or any value) by key.
pub struct SoundingCache<V> {
    store: KeyedCache<String, V>,
}

impl<V> SoundingCache<V> {
    /// The entries, oldest store first.
    pub closed spec fn view(&self) -> Seq<Entry<Seq<char>, V>> {
        self.store.view()
    }

    /// The time-to-live in seconds.
    pub closed spec fn ttl(&self) -> u64 {
        self.store.ttl()
    }

    /// The backing store drops expired entries once it holds more than a
    /// hundred.
    #[verifier::type_invariant]
    spec fn prunes_above_hundred(&self) -> bool {
        self.store.limit() == Some(100usize)
    }

    /// An empty cache whose entries live `ttl_secs` seconds.
    pub fn new(ttl_secs: u64) -> (r: Self)
        ensures
            r.view() == Seq::<Entry<Seq<char>, V>>::empty(),
            r.ttl() == ttl_secs,
    {
        SoundingCache { store: KeyedCache::new(ttl_secs, Some(100)) }
    }

    /// The value stored under `key`, if it is still fresh at `now`.
    pub fn get(&self, key: &str, now: u64) -> (r: Option<&V>)
        ensures
            match find(self.view(), key@) {
                Some((v, t)) => if is_fresh(t, now, self.ttl()) {
                    r == Some(&v)
                } else {
                    r is None
                },
                None => r is None,
            },
    {
        let k = owned(key);
        self.store.get(&k, now)
    }

    /// Store `data` under `key` at `now`, replacing what was stored under
    /// that key; with more than a hundred entries, expired ones go first.
    pub fn put(&mut self, key: String, data: V, now: u64)
        ensures
            final(self).view() == stored(old(self).view(), key@, data, now, old(self).ttl(), Some(100usize)),
            final(self).ttl() == old(self).ttl(),
            distinct_keys(final(self).view()),
    {
        proof {
            use_type_invariant(&*self);
        }
        let mut store = KeyedCache::new(0, Some(100));
        std::mem::swap(&mut store, &mut self.store);
        store.put(key, data, now);
        self.store = store;
    }
}

} // verus!
