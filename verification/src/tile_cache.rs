//! In-memory cache of rendered map tiles, keyed by
//! `"model/var/level/fHH/z/x/y"`, with a time-to-live, a byte budget that
//! evicts expired and then oldest tiles, per-model invalidation, and
//! hit/miss counters.
//!
//! Times are nanosecond readings of a monotonic clock, handed in by the
//! caller; the cache itself never reads a clock.
use vstd::prelude::*;
use crate::text::{
    chars_of, decimal, decimal_padded, opt_chars, owned, push_char, push_decimal,
    push_decimal_padded,
};

verus! {

/// What the cache holds for one key.
pub struct StoredTile {
    pub key: Seq<char>,
    pub data: Seq<u8>,
    pub created: u64,
}

/// Nanoseconds in a second.
pub open spec fn nanos_per_sec() -> int {
    1_000_000_000
}

/// Time elapsed from `created` to `now`; zero when the clock reading is older.
pub open spec fn elapsed_ns(created: u64, now: u64) -> int {
    if now >= created {
        now - created
    } else {
        0
    }
}

/// A tile stored at `created` is still served at `now` under a TTL of `ttl_seconds`.
pub open spec fn is_fresh(created: u64, now: u64, ttl_seconds: u64) -> bool {
    elapsed_ns(created, now) < ttl_seconds * nanos_per_sec()
}

/// Total size in bytes of the tiles in `s`.
pub open spec fn stored_bytes(s: Seq<StoredTile>) -> nat
    decreases s.len(),
{
    if s.len() == 0 {
        0
    } else {
        stored_bytes(s.drop_last()) + s.last().data.len()
    }
}

/// Position of the tile with key `k` in `s`, or -1.
pub open spec fn key_index(s: Seq<StoredTile>, k: Seq<char>) -> int
    decreases s.len(),
{
    if s.len() == 0 {
        -1
    } else if s.last().key == k {
        s.len() - 1
    } else {
        key_index(s.drop_last(), k)
    }
}

/// The tile stored under key `k`, if any.
pub open spec fn lookup(s: Seq<StoredTile>, k: Seq<char>) -> Option<StoredTile> {
    let i = key_index(s, k);
    if i >= 0 {
        Some(s[i])
    } else {
        None
    }
}

/// No two tiles in `s` share a key.
pub open spec fn keys_distinct(s: Seq<StoredTile>) -> bool {
    forall|i: int, j: int| 0 <= i < j < s.len() ==> s[i].key != s[j].key
}

/// Position of the oldest tile of a non-empty `s` (the first one among equals).
pub open spec fn oldest_index(s: Seq<StoredTile>) -> int
    decreases s.len(),
{
    if s.len() <= 1 {
        0
    } else {
        let j = oldest_index(s.drop_last());
        if s.last().created < s[j].created {
            s.len() - 1
        } else {
            j
        }
    }
}

/// Drops the oldest tiles of `s`, one at a time, until `extra` more bytes fit
/// within `max` or nothing is left.
pub open spec fn evict_oldest(s: Seq<StoredTile>, extra: nat, max: nat) -> Seq<StoredTile>
    decreases s.len(),
{
    if s.len() == 0 || stored_bytes(s) + extra <= max {
        s
    } else {
        proof {
            lemma_oldest_index(s);
        }
        evict_oldest(s.remove(oldest_index(s)), extra, max)
    }
}

/// The oldest index lies in range and no tile is older than the one it names.
pub proof fn lemma_oldest_index(s: Seq<StoredTile>)
    requires
        s.len() > 0,
    ensures
        0 <= oldest_index(s) < s.len(),
        forall|i: int| 0 <= i < s.len() ==> s[oldest_index(s)].created <= #[trigger] s[i].created,
    decreases s.len(),
{
    if s.len() > 1 {
        let d = s.drop_last();
        lemma_oldest_index(d);
        assert forall|i: int| 0 <= i < s.len() implies s[oldest_index(s)].created
            <= #[trigger] s[i].created by {
            if i < s.len() - 1 {
                assert(s[i] == d[i]);
            }
        }
    }
}

/// What the cache keeps before storing `extra` more bytes: everything when it
/// fits, otherwise the tiles still fresh at `now`, thinned oldest-first.
pub open spec fn make_room(
    s: Seq<StoredTile>,
    extra: nat,
    max: nat,
    now: u64,
    ttl_seconds: u64,
) -> Seq<StoredTile> {
    if stored_bytes(s) + extra <= max {
        s
    } else {
        evict_oldest(s.filter(|t: StoredTile| is_fresh(t.created, now, ttl_seconds)), extra, max)
    }
}

/// Stores `t`, replacing the tile with the same key in place or appending it.
pub open spec fn store(s: Seq<StoredTile>, t: StoredTile) -> Seq<StoredTile> {
    let i = key_index(s, t.key);
    if i >= 0 {
        s.update(i, t)
    } else {
        s.push(t)
    }
}

/// The cache key of a tile: `model/var/level/fHH/z/x/y` with the forecast hour
/// padded to two digits.
pub open spec fn tile_key(
    model: Seq<char>,
    var: Seq<char>,
    level: Seq<char>,
    fhour: u32,
    z: u32,
    x: u32,
    y: u32,
) -> Seq<char> {
    model + seq!['/'] + var + seq!['/'] + level + seq!['/', 'f'] + decimal_padded(fhour as nat, 2)
        + seq!['/'] + decimal(z as nat) + seq!['/'] + decimal(x as nat) + seq!['/'] + decimal(
        y as nat,
    )
}

/// Index of the first '/' in `s`, or its length.
pub open spec fn slash_pos(s: Seq<char>) -> nat
    decreases s.len(),
{
    if s.len() == 0 {
        0
    } else if s[0] == '/' {
        0
    } else {
        1 + slash_pos(s.drop_first())
    }
}

/// The text before the first '/' of `s` (all of `s` when it has none).
pub open spec fn head_field(s: Seq<char>) -> Seq<char> {
    s.take(slash_pos(s) as int)
}

/// The text after the first '/' of `s` (empty when it has none).
pub open spec fn tail_fields(s: Seq<char>) -> Seq<char> {
    if slash_pos(s) < s.len() {
        s.skip(slash_pos(s) as int + 1)
    } else {
        Seq::empty()
    }
}

/// `s` holds at least one '/'.
pub open spec fn has_slash(s: Seq<char>) -> bool {
    slash_pos(s) < s.len()
}

/// `key` has the shape of a tile key: at least three '/'-separated fields.
pub open spec fn is_tile_key(key: Seq<char>) -> bool {
    has_slash(key) && has_slash(tail_fields(key))
}

/// Every stored tile has a key of tile-key shape.
pub open spec fn all_tile_keys(s: Seq<StoredTile>) -> bool {
    forall|i: int| 0 <= i < s.len() ==> is_tile_key(#[trigger] s[i].key)
}

/// A key is removed by an invalidation filter when it has at least three
/// '/'-separated fields and each given model, var or level filter equals
/// its first, second or third field; a filter that is not given is
/// skipped.
pub open spec fn invalidated_by(
    key: Seq<char>,
    model: Option<Seq<char>>,
    var: Option<Seq<char>>,
    level: Option<Seq<char>>,
) -> bool {
    let rest1 = tail_fields(key);
    let rest2 = tail_fields(rest1);
    &&& has_slash(key) && has_slash(rest1)
    &&& match model {
        Some(m) => head_field(key) == m,
        None => true,
    }
    &&& match var {
        Some(v) => head_field(rest1) == v,
        None => true,
    }
    &&& match level {
        Some(l) => head_field(rest2) == l,
        None => true,
    }
}


/// Where `key_index` points, and that it finds a tile exactly when one has the key.
pub proof fn lemma_key_index(s: Seq<StoredTile>, k: Seq<char>)
    ensures
        -1 <= key_index(s, k) < s.len(),
        key_index(s, k) >= 0 ==> s[key_index(s, k)].key == k,
        key_index(s, k) == -1 <==> forall|i: int| 0 <= i < s.len() ==> s[i].key != k,
        keys_distinct(s) ==> forall|i: int|
            0 <= i < s.len() && s[i].key == k ==> key_index(s, k) == i,
    decreases s.len(),
{
    if s.len() > 0 {
        let d = s.drop_last();
        lemma_key_index(d, k);
        assert forall|i: int| 0 <= i < d.len() implies d[i] == s[i] by {}
    }
}

/// Removing one tile takes its bytes off the total.
pub proof fn lemma_bytes_remove(s: Seq<StoredTile>, i: int)
    requires
        0 <= i < s.len(),
    ensures
        stored_bytes(s.remove(i)) + s[i].data.len() == stored_bytes(s),
    decreases s.len(),
{
    if i == s.len() - 1 {
        assert(s.remove(i) =~= s.drop_last());
    } else {
        lemma_bytes_remove(s.drop_last(), i);
        assert(s.remove(i).drop_last() =~= s.drop_last().remove(i));
        assert(s.remove(i).last() == s.last());
    }
}

/// Replacing one tile swaps its bytes in the total.
pub proof fn lemma_bytes_update(s: Seq<StoredTile>, i: int, t: StoredTile)
    requires
        0 <= i < s.len(),
    ensures
        stored_bytes(s.update(i, t)) + s[i].data.len() == stored_bytes(s) + t.data.len(),
    decreases s.len(),
{
    if i == s.len() - 1 {
        assert(s.update(i, t).drop_last() =~= s.drop_last());
    } else {
        lemma_bytes_update(s.drop_last(), i, t);
        assert(s.update(i, t).drop_last() =~= s.drop_last().update(i, t));
    }
}

/// A prefix holds no more bytes than the whole.
pub proof fn lemma_bytes_prefix(s: Seq<StoredTile>, i: int)
    requires
        0 <= i <= s.len(),
    ensures
        stored_bytes(s.take(i)) <= stored_bytes(s),
    decreases s.len() - i,
{
    if i < s.len() {
        lemma_bytes_prefix(s, i + 1);
        assert(s.take(i + 1).drop_last() =~= s.take(i));
    } else {
        assert(s.take(i) =~= s);
    }
}

/// Keeping some tiles keeps the keys distinct and does not add bytes.
pub proof fn lemma_filter_distinct(s: Seq<StoredTile>, p: spec_fn(StoredTile) -> bool)
    requires
        keys_distinct(s),
    ensures
        keys_distinct(s.filter(p)),
        stored_bytes(s.filter(p)) <= stored_bytes(s),
        forall|j: int| 0 <= j < s.filter(p).len() ==> s.contains(#[trigger] s.filter(p)[j]),
    decreases s.len(),
{
    reveal_with_fuel(Seq::filter, 1);
    if s.len() > 0 {
        let d = s.drop_last();
        assert(keys_distinct(d)) by {
            assert forall|i: int, j: int| 0 <= i < j < d.len() implies d[i].key != d[j].key by {
                assert(d[i] == s[i] && d[j] == s[j]);
            }
        }
        lemma_filter_distinct(d, p);
        let fd = d.filter(p);
        assert forall|j: int| 0 <= j < fd.len() implies (#[trigger] fd[j]).key != s.last().key by {
            assert(d.contains(fd[j]));
            let k = choose|k: int| 0 <= k < d.len() && d[k] == fd[j];
            assert(s[k] == d[k]);
        }
        assert forall|j: int| 0 <= j < s.filter(p).len() implies s.contains(
            #[trigger] s.filter(p)[j],
        ) by {
            if j < fd.len() {
                assert(d.contains(fd[j]));
                let k = choose|k: int| 0 <= k < d.len() && d[k] == fd[j];
                assert(s[k] == d[k]);
            } else {
                assert(s[s.len() - 1] == s.last());
            }
        }
        if p(s.last()) {
            assert(fd.push(s.last()).drop_last() =~= fd);
        }
    }
}

/// A prefix of tiles with distinct keys has distinct keys.
pub proof fn lemma_take_distinct(s: Seq<StoredTile>, n: int)
    requires
        keys_distinct(s),
        0 <= n <= s.len(),
    ensures
        keys_distinct(s.take(n)),
{
    let t = s.take(n);
    assert forall|a: int, b: int| 0 <= a < b < t.len() implies t[a].key != t[b].key by {
        assert(t[a] == s[a] && t[b] == s[b]);
    }
}

/// Removing a tile keeps the keys distinct.
pub proof fn lemma_remove_distinct(s: Seq<StoredTile>, i: int)
    requires
        keys_distinct(s),
        0 <= i < s.len(),
    ensures
        keys_distinct(s.remove(i)),
{
    let r = s.remove(i);
    assert forall|a: int, b: int| 0 <= a < b < r.len() implies r[a].key != r[b].key by {
        let sa = if a < i { a } else { a + 1 };
        let sb = if b < i { b } else { b + 1 };
        assert(r[a] == s[sa] && r[b] == s[sb]);
    }
}

/// Storing a tile keeps the keys distinct, and `lookup` then finds it.
pub proof fn lemma_store(s: Seq<StoredTile>, t: StoredTile)
    requires
        keys_distinct(s),
    ensures
        keys_distinct(store(s, t)),
        lookup(store(s, t), t.key) == Some(t),
        key_index(s, t.key) >= 0 ==> stored_bytes(store(s, t)) + s[key_index(s, t.key)].data.len()
            == stored_bytes(s) + t.data.len(),
        key_index(s, t.key) < 0 ==> stored_bytes(store(s, t)) == stored_bytes(s) + t.data.len(),
{
    lemma_key_index(s, t.key);
    let i = key_index(s, t.key);
    let r = store(s, t);
    if i >= 0 {
        lemma_bytes_update(s, i, t);
        assert forall|a: int, b: int| 0 <= a < b < r.len() implies r[a].key != r[b].key by {
            if a != i && b != i {
                assert(r[a] == s[a] && r[b] == s[b]);
            }
        }
        lemma_key_index(r, t.key);
        assert(r[i] == t);
    } else {
        assert(r.drop_last() =~= s);
        assert forall|a: int, b: int| 0 <= a < b < r.len() implies r[a].key != r[b].key by {
            if b < s.len() {
                assert(r[a] == s[a] && r[b] == s[b]);
            } else {
                assert(r[a] == s[a]);
            }
        }
        lemma_key_index(r, t.key);
        assert(r[s.len() as int] == t);
    }
}

/// `evict_oldest` keeps a sub-list of distinct keys with no more bytes.
pub proof fn lemma_evict_distinct(s: Seq<StoredTile>, extra: nat, max: nat)
    requires
        keys_distinct(s),
    ensures
        keys_distinct(evict_oldest(s, extra, max)),
        stored_bytes(evict_oldest(s, extra, max)) <= stored_bytes(s),
    decreases s.len(),
{
    if !(s.len() == 0 || stored_bytes(s) + extra <= max) {
        lemma_oldest_index(s);
        let i = oldest_index(s);
        lemma_remove_distinct(s, i);
        lemma_bytes_remove(s, i);
        lemma_evict_distinct(s.remove(i), extra, max);
    }
}

/// `x + 1`, wrapping to zero past the largest value.
pub open spec fn wrap_inc(x: u64) -> u64 {
    if x == u64::MAX {
        0
    } else {
        (x + 1) as u64
    }
}

/// `x + 1`, wrapping to zero past the largest value.
fn wrapping_inc(x: u64) -> (r: u64)
    ensures
        r == wrap_inc(x),
{
    if x == u64::MAX {
        0
    } else {
        x + 1
    }
}

/// A copy of the bytes of `v`.
pub fn copy_bytes(v: &Vec<u8>) -> (r: Vec<u8>)
    ensures
        r@ == v@,
{
    let mut r: Vec<u8> = Vec::new();
    let n = v.len();
    let mut i: usize = 0;
    while i < n
        invariant
            n == v.len(),
            i <= n,
            r@ == v@.take(i as int),
        decreases n - i,
    {
        r.push(v[i]);
        assert(v@.take(i + 1) =~= v@.take(i as int).push(v@[i as int]));
        i += 1;
    }
    assert(v@.take(n as int) =~= v@);
    r
}

/// `slash_pos` names the first '/' of `s`, or its length.
pub proof fn lemma_slash_pos(s: Seq<char>)
    ensures
        slash_pos(s) <= s.len(),
        forall|j: int| 0 <= j < slash_pos(s) ==> s[j] != '/',
        slash_pos(s) < s.len() ==> s[slash_pos(s) as int] == '/',
    decreases s.len(),
{
    if s.len() > 0 && s[0] != '/' {
        lemma_slash_pos(s.drop_first());
        assert forall|j: int| 0 <= j < slash_pos(s) implies s[j] != '/' by {
            if j > 0 {
                assert(s[j] == s.drop_first()[j - 1]);
            }
        }
    }
}

/// A position with no '/' before it and a '/' (or the end) at it is `slash_pos`.
pub proof fn lemma_slash_pos_at(s: Seq<char>, p: int)
    requires
        0 <= p <= s.len(),
        forall|j: int| 0 <= j < p ==> s[j] != '/',
        p == s.len() || s[p] == '/',
    ensures
        slash_pos(s) == p,
    decreases s.len(),
{
    if s.len() > 0 && p > 0 {
        let d = s.drop_first();
        assert forall|j: int| 0 <= j < p - 1 implies d[j] != '/' by {
            assert(d[j] == s[j + 1]);
        }
        lemma_slash_pos_at(d, p - 1);
    }
}

/// Whether something stored at `created` is still fresh at `now` under a
/// TTL of `ttl_seconds`.
pub(crate) fn still_fresh(created: u64, now: u64, ttl_seconds: u64) -> (r: bool)
    ensures
        r == is_fresh(created, now, ttl_seconds),
{
    let elapsed: u64 = if now >= created {
        now - created
    } else {
        0
    };
    (elapsed as u128) < (ttl_seconds as u128) * 1_000_000_000u128
}

struct CacheEntry {
    key: String,
    data: Vec<u8>,
    created: u64,
}

impl CacheEntry {
    spec fn tile(&self) -> StoredTile {
        StoredTile { key: self.key@, data: self.data@, created: self.created }
    }
}

/// Snapshot of cache statistics.
pub struct CacheStats {
    pub entries: usize,
    pub total_bytes: usize,
    pub max_bytes: usize,
    pub expired_entries: usize,
    pub ttl_seconds: u64,
    pub hits: u64,
    pub misses: u64,
}

/// In-memory tile cache.
pub struct TileCache {
    entries: Vec<CacheEntry>,
    total: usize,
    max_size: usize,
    ttl_seconds: u64,
    hits: u64,
    misses: u64,
}

spec fn tiles_of(v: Seq<CacheEntry>) -> Seq<StoredTile> {
    v.map_values(|e: CacheEntry| e.tile())
}

/// Position of the first '/' in `v` at or after `from`, or `v.len()`.
pub(crate) fn slash_from(v: &Vec<char>, from: usize) -> (r: usize)
    requires
        from <= v.len(),
    ensures
        from <= r <= v.len(),
        r - from == slash_pos(v@.skip(from as int)),
{
    let mut i = from;
    while i < v.len() && v[i] != '/'
        invariant
            from <= i <= v.len(),
            forall|j: int| from <= j < i ==> v@[j] != '/',
        decreases v.len() - i,
    {
        i += 1;
    }
    proof {
        let t = v@.skip(from as int);
        assert forall|j: int| 0 <= j < i - from implies t[j] != '/' by {
            assert(t[j] == v@[from + j]);
        }
        if i < v.len() {
            assert(t[i - from] == v@[i as int]);
        }
        lemma_slash_pos_at(t, i - from);
    }
    i
}

/// Whether `v[from..to]` holds exactly the characters of `m`.
fn range_is(v: &Vec<char>, from: usize, to: usize, m: &str) -> (r: bool)
    requires
        from <= to <= v.len(),
    ensures
        r == (v@.subrange(from as int, to as int) == m@),
{
    let mv = crate::text::chars_of(m);
    if mv.len() != to - from {
        return false;
    }
    let r = crate::text::match_at(v, &mv, from);
    proof {
        if !r {
            if v@.subrange(from as int, to as int) == m@ {
                assert(crate::text::occurs_at(v@, mv@, from as int));
            }
        }
    }
    r
}

/// Whether a stored key is removed by the invalidation filters.
fn key_invalidated(
    key: &String,
    model: Option<&str>,
    var: Option<&str>,
    level: Option<&str>,
) -> (r: bool)
    ensures
        r == invalidated_by(key@, opt_chars(model), opt_chars(var), opt_chars(level)),
{
    let v = chars_of(key.as_str());
    let n = v.len();
    let p0 = slash_from(&v, 0);
    proof {
        assert(v@.skip(0) =~= v@);
        lemma_slash_pos(v@);
    }
    if p0 == n {
        return false;
    }
    let ghost rest1 = v@.skip(p0 + 1);
    proof {
        assert(tail_fields(key@) =~= rest1);
        assert(head_field(key@) =~= v@.subrange(0, p0 as int));
    }
    let p1 = slash_from(&v, p0 + 1);
    proof {
        lemma_slash_pos(rest1);
    }
    if p1 == n {
        return false;
    }
    let ghost rest2 = v@.skip(p1 + 1);
    proof {
        assert(tail_fields(rest1) =~= rest2);
        assert(head_field(rest1) =~= v@.subrange(p0 + 1, p1 as int));
    }
    let p2 = slash_from(&v, p1 + 1);
    proof {
        lemma_slash_pos(rest2);
        assert(head_field(rest2) =~= v@.subrange(p1 + 1, p2 as int));
    }
    let m_ok = match model {
        Some(m) => range_is(&v, 0, p0, m),
        None => true,
    };
    let v_ok = match var {
        Some(w) => range_is(&v, p0 + 1, p1, w),
        None => true,
    };
    let l_ok = match level {
        Some(l) => range_is(&v, p1 + 1, p2, l),
        None => true,
    };
    m_ok && v_ok && l_ok
}

impl View for TileCache {
    type V = Seq<StoredTile>;

    closed spec fn view(&self) -> Seq<StoredTile> {
        tiles_of(self.entries@)
    }
}

impl TileCache {
    /// The cache's internal consistency: distinct keys of tile-key shape
    /// and a byte count that matches the stored tiles.
    pub closed spec fn wf(&self) -> bool {
        &&& keys_distinct(self@)
        &&& all_tile_keys(self@)
        &&& self.total as nat == stored_bytes(self@)
    }

    /// Byte budget.
    pub closed spec fn max_bytes(&self) -> nat {
        self.max_size as nat
    }

    /// Time-to-live in seconds.
    pub closed spec fn ttl(&self) -> u64 {
        self.ttl_seconds
    }

    /// Number of lookups served.
    pub closed spec fn hit_count(&self) -> u64 {
        self.hits
    }

    /// Number of lookups not served.
    pub closed spec fn miss_count(&self) -> u64 {
        self.misses
    }

    /// Total bytes held.
    pub open spec fn total_bytes(&self) -> nat {
        stored_bytes(self@)
    }

    /// Create a new cache with the given size limit (in megabytes) and TTL (in seconds).
    pub fn new(max_size_mb: usize, ttl_seconds: u64) -> (r: Self)
        requires
            max_size_mb * 1024 * 1024 <= usize::MAX,
        ensures
            r.wf(),
            r@ == Seq::<StoredTile>::empty(),
            r.max_bytes() == max_size_mb * 1024 * 1024,
            r.ttl() == ttl_seconds,
            r.hit_count() == 0,
            r.miss_count() == 0,
    {
        let r = TileCache {
            entries: Vec::new(),
            total: 0,
            max_size: max_size_mb * 1024 * 1024,
            ttl_seconds,
            hits: 0,
            misses: 0,
        };
        assert(r@ =~= Seq::<StoredTile>::empty());
        r
    }

    /// Position of the tile stored under `key`.
    fn find_key(&self, key: &String) -> (r: Option<usize>)
        requires
            self.wf(),
        ensures
            match r {
                Some(i) => i < self@.len() && key_index(self@, key@) == i as int,
                None => key_index(self@, key@) == -1,
            },
    {
        let n = self.entries.len();
        let mut i: usize = 0;
        while i < n
            invariant
                n == self.entries.len(),
                i <= n,
                self.wf(),
                self@.len() == n,
                forall|j: int| 0 <= j < i ==> self@[j].key != key@,
            decreases n - i,
        {
            let same = crate::text::str_eq(self.entries[i].key.as_str(), key.as_str());
            proof {
                assert(self@[i as int] == self.entries@[i as int].tile());
            }
            if same {
                proof {
                    assert(self@[i as int].key == key@);
                    assert(keys_distinct(self@));
                    lemma_key_index(self@, key@);
                }
                return Some(i);
            }
            i += 1;
        }
        proof {
            lemma_key_index(self@, key@);
        }
        None
    }

    /// Whether a tile stored at `created` is still served at `now`.
    fn fresh_at(&self, created: u64, now: u64) -> (r: bool)
        ensures
            r == is_fresh(created, now, self.ttl_seconds),
    {
        let elapsed: u64 = if now >= created {
            now - created
        } else {
            0
        };
        (elapsed as u128) < (self.ttl_seconds as u128) * 1_000_000_000u128
    }

    /// Look up a cached tile at clock reading `now` (nanoseconds). Returns
    /// `None` if absent or expired; counts the lookup as a hit or a miss.
    pub fn get(
        &mut self,
        model: &str,
        var: &str,
        level: &str,
        fhour: u32,
        z: u32,
        x: u32,
        y: u32,
        now: u64,
    ) -> (r: Option<Vec<u8>>)
        requires
            old(self).wf(),
        ensures
            final(self).wf(),
            final(self)@ == old(self)@,
            final(self).max_bytes() == old(self).max_bytes(),
            final(self).ttl() == old(self).ttl(),
            ({
                let found = lookup(old(self)@, tile_key(model@, var@, level@, fhour, z, x, y));
                &&& r is Some <==> (found is Some && is_fresh(
                    found->0.created,
                    now,
                    old(self).ttl(),
                ))
                &&& r matches Some(d) ==> d@ == found->0.data
            }),
            r is Some ==> final(self).hit_count() == wrap_inc(old(self).hit_count())
                && final(self).miss_count() == old(self).miss_count(),
            r is None ==> final(self).miss_count() == wrap_inc(old(self).miss_count())
                && final(self).hit_count() == old(self).hit_count(),
    {
        let key = Self::key(model, var, level, fhour, z, x, y);
        match self.find_key(&key) {
            Some(i) => {
                if self.fresh_at(self.entries[i].created, now) {
                    self.hits = wrapping_inc(self.hits);
                    let d = copy_bytes(&self.entries[i].data);
                    proof {
                        assert(self@[i as int] == self.entries@[i as int].tile());
                    }
                    return Some(d);
                }
                proof {
                    assert(self@[i as int] == self.entries@[i as int].tile());
                }
            },
            None => {},
        }
        self.misses = wrapping_inc(self.misses);
        None
    }

    /// Keeps only the tiles still fresh at `now`.
    fn drop_expired(&mut self, now: u64)
        requires
            old(self).wf(),
        ensures
            final(self).wf(),
            final(self)@ == old(self)@.filter(
                |t: StoredTile| is_fresh(t.created, now, old(self).ttl()),
            ),
            final(self).max_size == old(self).max_size,
            final(self).ttl_seconds == old(self).ttl_seconds,
            final(self).hits == old(self).hits,
            final(self).misses == old(self).misses,
    {
        let ghost orig = self@;
        let ghost p = |t: StoredTile| is_fresh(t.created, now, self.ttl_seconds);
        let mut rest: Vec<CacheEntry> = Vec::new();
        std::mem::swap(&mut rest, &mut self.entries);
        let mut kept: usize = 0;
        let ghost mut i: int = 0;
        proof {
            reveal_with_fuel(Seq::filter, 1);
            assert(tiles_of(rest@) =~= orig.skip(0));
            assert(orig.take(0) =~= Seq::<StoredTile>::empty());
            assert(tiles_of(self.entries@) =~= Seq::<StoredTile>::empty());
            lemma_filter_distinct(orig, p);
            lemma_filter_tile_keys(orig, p);
        }
        while rest.len() > 0
            invariant
                0 <= i <= orig.len(),
                rest.len() + i == orig.len(),
                self.max_size == old(self).max_size,
                self.ttl_seconds == old(self).ttl_seconds,
                self.hits == old(self).hits,
                self.misses == old(self).misses,
                tiles_of(rest@) == orig.skip(i),
                tiles_of(self.entries@) == orig.take(i).filter(p),
                kept as nat == stored_bytes(orig.take(i).filter(p)),
                stored_bytes(orig) <= usize::MAX,
                keys_distinct(orig),
                all_tile_keys(orig.filter(p)),
                p == (|t: StoredTile| is_fresh(t.created, now, self.ttl_seconds)),
            decreases rest.len(),
        {
            let ghost rest_before = rest@;
            let e = rest.remove(0);
            proof {
                assert(tiles_of(rest_before)[0] == orig.skip(i)[0]);
                assert(e.tile() == orig[i]);
                assert(orig.take(i + 1).drop_last() =~= orig.take(i));
                assert(orig.take(i + 1).last() == orig[i]);
                assert forall|j: int| 0 <= j < rest@.len() implies tiles_of(rest@)[j] == orig.skip(
                    i + 1,
                )[j] by {
                    assert(rest@[j] == rest_before[j + 1]);
                    assert(tiles_of(rest_before)[j + 1] == orig.skip(i)[j + 1]);
                }
                assert(tiles_of(rest@) =~= orig.skip(i + 1));
                reveal_with_fuel(Seq::filter, 1);
                lemma_filter_distinct(orig.take(i + 1), p);
                lemma_bytes_prefix(orig, i + 1);
                lemma_take_distinct(orig, i + 1);
                lemma_filter_distinct(orig.take(i + 1), p);
            }
            if self.fresh_at(e.created, now) {
                let sz = e.data.len();
                proof {
                    assert(orig.take(i + 1).filter(p) == orig.take(i).filter(p).push(orig[i]));
                    assert(orig.take(i).filter(p).push(orig[i]).drop_last() =~= orig.take(
                        i,
                    ).filter(p));
                }
                kept = kept + sz;
                self.entries.push(e);
                proof {
                    assert(tiles_of(self.entries@) =~= orig.take(i).filter(p).push(orig[i]));
                }
            } else {
                proof {
                    assert(orig.take(i + 1).filter(p) == orig.take(i).filter(p));
                }
            }
            proof {
                i = i + 1;
            }
        }
        proof {
            assert(orig.skip(i).len() == 0);
            assert(orig.take(i) =~= orig);
        }
        self.total = kept;
    }

    /// Position of the oldest stored tile.
    fn oldest(&self) -> (r: usize)
        requires
            self.entries.len() > 0,
        ensures
            r as int == oldest_index(self@),
    {
        let n = self.entries.len();
        let mut best: usize = 0;
        let mut i: usize = 1;
        proof {
            assert(self@.take(1).len() == 1);
        }
        while i < n
            invariant
                n == self.entries.len(),
                1 <= i <= n,
                best < i,
                self@.len() == n,
                best as int == oldest_index(self@.take(i as int)),
            decreases n - i,
        {
            proof {
                let t = self@.take(i + 1);
                assert(t.drop_last() =~= self@.take(i as int));
                assert(t.last() == self@[i as int]);
                assert(t[best as int] == self@[best as int]);
                assert(self@[i as int] == self.entries@[i as int].tile());
                assert(self@[best as int] == self.entries@[best as int].tile());
            }
            if self.entries[i].created < self.entries[best].created {
                best = i;
            }
            i += 1;
        }
        proof {
            assert(self@.take(n as int) =~= self@);
        }
        best
    }

    /// Insert a rendered tile at clock reading `now` (nanoseconds). When the
    /// new bytes would exceed the budget, expired tiles are dropped first and
    /// then the oldest ones until the tile fits or nothing else is left; the
    /// tile is stored in any case.
    pub fn put(
        &mut self,
        model: &str,
        var: &str,
        level: &str,
        fhour: u32,
        z: u32,
        x: u32,
        y: u32,
        data: Vec<u8>,
        now: u64,
    )
        requires
            old(self).wf(),
            old(self).total_bytes() + data@.len() <= usize::MAX,
        ensures
            final(self).wf(),
            final(self)@ == store(
                make_room(
                    old(self)@,
                    data@.len(),
                    old(self).max_bytes(),
                    now,
                    old(self).ttl(),
                ),
                StoredTile {
                    key: tile_key(model@, var@, level@, fhour, z, x, y),
                    data: data@,
                    created: now,
                },
            ),
            final(self).max_bytes() == old(self).max_bytes(),
            final(self).ttl() == old(self).ttl(),
            final(self).hit_count() == old(self).hit_count(),
            final(self).miss_count() == old(self).miss_count(),
    {
        let key = Self::key(model, var, level, fhour, z, x, y);
        let size = data.len();
        let ghost orig = self@;
        let ghost p = |t: StoredTile| is_fresh(t.created, now, self.ttl_seconds);
        if self.total + size > self.max_size {
            self.drop_expired(now);
            proof {
                lemma_filter_distinct(orig, p);
            }
            let ghost stage = self@;
            while self.entries.len() > 0 && self.total + size > self.max_size
                invariant
                    self.wf(),
                    self.total as nat <= stored_bytes(orig),
                    stored_bytes(orig) + size <= usize::MAX,
                    evict_oldest(self@, size as nat, self.max_size as nat) == evict_oldest(
                        stage,
                        size as nat,
                        self.max_size as nat,
                    ),
                    self.max_size == old(self).max_size,
                    self.ttl_seconds == old(self).ttl_seconds,
                    self.hits == old(self).hits,
                    self.misses == old(self).misses,
                decreases self.entries.len(),
            {
                let ghost before = self@;
                let i = self.oldest();
                proof {
                    lemma_oldest_index(before);
                    lemma_bytes_remove(before, i as int);
                    lemma_remove_distinct(before, i as int);
                    lemma_remove_tile_keys(before, i as int);
                }
                let e = self.entries.remove(i);
                proof {
                    assert(self@ =~= before.remove(i as int));
                    assert(e.tile() == before[i as int]);
                }
                self.total = self.total - e.data.len();
            }
            proof {
                assert(evict_oldest(self@, size as nat, self.max_size as nat) == self@);
                assert(p =~= (|t: StoredTile| is_fresh(t.created, now, old(self).ttl())));
            }
        }
        let ghost room = self@;
        assert(self.total as nat <= stored_bytes(orig));
        proof {
            assert(room == make_room(orig, size as nat, self.max_size as nat, now, self.ttl_seconds));
        }
        let ghost t = StoredTile {
            key: tile_key(model@, var@, level@, fhour, z, x, y),
            data: data@,
            created: now,
        };
        proof {
            lemma_store(room, t);
            lemma_key_index(room, t.key);
            lemma_tile_key_shape(model@, var@, level@, fhour, z, x, y);
        }
        match self.find_key(&key) {
            Some(i) => {
                let old_size = self.entries[i].data.len();
                proof {
                    assert(room[i as int] == self.entries@[i as int].tile());
                    lemma_bytes_remove(room, i as int);
                }
                self.entries.set(i, CacheEntry { key, data, created: now });
                self.total = self.total - old_size + size;
                proof {
                    assert(self@ =~= room.update(i as int, t));
                    assert(all_tile_keys(self@)) by {
                        assert forall|j: int| 0 <= j < self@.len() implies is_tile_key(#[trigger] self@[j].key) by {
                            if j != i {
                                assert(self@[j] == room[j]);
                            }
                        }
                    }
                }
            },
            None => {
                self.entries.push(CacheEntry { key, data, created: now });
                self.total = self.total + size;
                proof {
                    assert(self@ =~= room.push(t));
                    assert(all_tile_keys(self@)) by {
                        assert forall|j: int| 0 <= j < self@.len() implies is_tile_key(#[trigger] self@[j].key) by {
                            if j < room.len() {
                                assert(self@[j] == room[j]);
                            }
                        }
                    }
                }
            },
        }
    }

    /// Invalidate all tiles matching a specific model run, e.g. when a new
    /// model run becomes available. Pass `None` to skip a filter field, so
    /// that no filters at all remove every tile. Returns the number of
    /// tiles removed.
    pub fn invalidate(&mut self, model: Option<&str>, var: Option<&str>, level: Option<&str>) -> (r:
        usize)
        requires
            old(self).wf(),
        ensures
            final(self).wf(),
            final(self)@ == old(self)@.filter(
                |t: StoredTile|
                    !invalidated_by(t.key, opt_chars(model), opt_chars(var), opt_chars(level)),
            ),
            r == old(self)@.len() - final(self)@.len(),
            model is None && var is None && level is None ==> final(self)@.len() == 0 && r == old(
                self,
            )@.len(),
            final(self).max_bytes() == old(self).max_bytes(),
            final(self).ttl() == old(self).ttl(),
            final(self).hit_count() == old(self).hit_count(),
            final(self).miss_count() == old(self).miss_count(),
    {
        let ghost orig = self@;
        let ghost p = |t: StoredTile|
            !invalidated_by(t.key, opt_chars(model), opt_chars(var), opt_chars(level));
        let before = self.entries.len();
        let mut rest: Vec<CacheEntry> = Vec::new();
        std::mem::swap(&mut rest, &mut self.entries);
        let mut kept: usize = 0;
        let ghost mut i: int = 0;
        proof {
            reveal_with_fuel(Seq::filter, 1);
            assert(tiles_of(rest@) =~= orig.skip(0));
            assert(tiles_of(self.entries@) =~= Seq::<StoredTile>::empty());
            lemma_filter_distinct(orig, p);
            lemma_filter_tile_keys(orig, p);
        }
        while rest.len() > 0
            invariant
                0 <= i <= orig.len(),
                rest.len() + i == orig.len(),
                self.max_size == old(self).max_size,
                self.ttl_seconds == old(self).ttl_seconds,
                self.hits == old(self).hits,
                self.misses == old(self).misses,
                tiles_of(rest@) == orig.skip(i),
                tiles_of(self.entries@) == orig.take(i).filter(p),
                kept as nat == stored_bytes(orig.take(i).filter(p)),
                stored_bytes(orig) <= usize::MAX,
                keys_distinct(orig),
                all_tile_keys(orig.filter(p)),
                p == (|t: StoredTile|
                    !invalidated_by(t.key, opt_chars(model), opt_chars(var), opt_chars(level))),
            decreases rest.len(),
        {
            let ghost rest_before = rest@;
            let e = rest.remove(0);
            proof {
                assert(tiles_of(rest_before)[0] == orig.skip(i)[0]);
                assert(e.tile() == orig[i]);
                assert(orig.take(i + 1).drop_last() =~= orig.take(i));
                assert(orig.take(i + 1).last() == orig[i]);
                assert forall|j: int| 0 <= j < rest@.len() implies tiles_of(rest@)[j] == orig.skip(
                    i + 1,
                )[j] by {
                    assert(rest@[j] == rest_before[j + 1]);
                    assert(tiles_of(rest_before)[j + 1] == orig.skip(i)[j + 1]);
                }
                assert(tiles_of(rest@) =~= orig.skip(i + 1));
                reveal_with_fuel(Seq::filter, 1);
                lemma_bytes_prefix(orig, i + 1);
                lemma_take_distinct(orig, i + 1);
                lemma_filter_distinct(orig.take(i + 1), p);
            }
            if !key_invalidated(&e.key, model, var, level) {
                let sz = e.data.len();
                proof {
                    assert(orig.take(i + 1).filter(p) == orig.take(i).filter(p).push(orig[i]));
                    assert(orig.take(i).filter(p).push(orig[i]).drop_last() =~= orig.take(
                        i,
                    ).filter(p));
                }
                kept = kept + sz;
                self.entries.push(e);
                proof {
                    assert(tiles_of(self.entries@) =~= orig.take(i).filter(p).push(orig[i]));
                }
            } else {
                proof {
                    assert(orig.take(i + 1).filter(p) == orig.take(i).filter(p));
                }
            }
            proof {
                i = i + 1;
            }
        }
        proof {
            assert(orig.take(i) =~= orig);
            orig.lemma_filter_len(p);
            if model is None && var is None && level is None {
                law_no_filters_remove_all(orig);
                assert(p == (|t: StoredTile| !invalidated_by(t.key, None, None, None)));
            }
        }
        self.total = kept;
        before - self.entries.len()
    }

    /// Current cache statistics at clock reading `now` (nanoseconds).
    pub fn stats(&self, now: u64) -> (r: CacheStats)
        requires
            self.wf(),
        ensures
            r.entries == self@.len(),
            r.total_bytes == self.total_bytes(),
            r.max_bytes == self.max_bytes(),
            r.expired_entries == self@.filter(
                |t: StoredTile| !is_fresh(t.created, now, self.ttl()),
            ).len(),
            r.ttl_seconds == self.ttl(),
            r.hits == self.hit_count(),
            r.misses == self.miss_count(),
    {
        let ghost p = |t: StoredTile| !is_fresh(t.created, now, self.ttl_seconds);
        let n = self.entries.len();
        let mut expired: usize = 0;
        let mut i: usize = 0;
        while i < n
            invariant
                n == self.entries.len(),
                i <= n,
                self@.len() == n,
                expired as nat == self@.take(i as int).filter(p).len(),
                expired <= i,
                p == (|t: StoredTile| !is_fresh(t.created, now, self.ttl_seconds)),
            decreases n - i,
        {
            proof {
                reveal_with_fuel(Seq::filter, 1);
                assert(self@.take(i + 1).drop_last() =~= self@.take(i as int));
                assert(self@.take(i + 1).last() == self@[i as int]);
                assert(self@[i as int] == self.entries@[i as int].tile());
            }
            if !self.fresh_at(self.entries[i].created, now) {
                expired += 1;
            }
            i += 1;
        }
        proof {
            assert(self@.take(n as int) =~= self@);
        }
        CacheStats {
            entries: n,
            total_bytes: self.total,
            max_bytes: self.max_size,
            expired_entries: expired,
            ttl_seconds: self.ttl_seconds,
            hits: self.hits,
            misses: self.misses,
        }
    }

    /// Remove all entries and reset the hit and miss counters.
    pub fn clear(&mut self)
        ensures
            final(self).wf(),
            final(self)@ == Seq::<StoredTile>::empty(),
            final(self).hit_count() == 0,
            final(self).miss_count() == 0,
            final(self).max_bytes() == old(self).max_bytes(),
            final(self).ttl() == old(self).ttl(),
    {
        self.entries = Vec::new();
        self.total = 0;
        self.hits = 0;
        self.misses = 0;
        assert(self@ =~= Seq::<StoredTile>::empty());
    }

    /// Build the string key used for cache lookups.
    pub fn key(model: &str, var: &str, level: &str, fhour: u32, z: u32, x: u32, y: u32) -> (r:
        String)
        ensures
            r@ == tile_key(model@, var@, level@, fhour, z, x, y),
    {
        let mut s = owned(model);
        push_char(&mut s, '/');
        s.append(var);
        push_char(&mut s, '/');
        s.append(level);
        push_char(&mut s, '/');
        push_char(&mut s, 'f');
        push_decimal_padded(&mut s, fhour as u64, 2);
        push_char(&mut s, '/');
        push_decimal(&mut s, z as u64);
        push_char(&mut s, '/');
        push_decimal(&mut s, x as u64);
        push_char(&mut s, '/');
        push_decimal(&mut s, y as u64);
        assert(s@ =~= tile_key(model@, var@, level@, fhour, z, x, y));
        s
    }
}

} // verus!

verus! {

/// Freshness does not depend on anything but the age: a tile is served
/// right after it is stored exactly when the TTL is positive, and a zero TTL
/// never serves a tile.
pub proof fn law_fresh_when_stored(created: u64, now: u64, ttl_seconds: u64)
    ensures
        is_fresh(created, created, ttl_seconds) <==> ttl_seconds > 0,
        ttl_seconds == 0 ==> !is_fresh(created, now, ttl_seconds),
{
}

/// Making room keeps the byte total within the budget, unless nothing but
/// the new tile is left.
pub proof fn law_make_room_fits(
    s: Seq<StoredTile>,
    extra: nat,
    max: nat,
    now: u64,
    ttl_seconds: u64,
)
    ensures
        stored_bytes(make_room(s, extra, max, now, ttl_seconds)) + extra <= max || make_room(
            s,
            extra,
            max,
            now,
            ttl_seconds,
        ).len() == 0,
{
    let p = |t: StoredTile| is_fresh(t.created, now, ttl_seconds);
    if stored_bytes(s) + extra > max {
        lemma_evict_fits(s.filter(p), extra, max);
    }
}

proof fn lemma_evict_fits(s: Seq<StoredTile>, extra: nat, max: nat)
    ensures
        stored_bytes(evict_oldest(s, extra, max)) + extra <= max || evict_oldest(
            s,
            extra,
            max,
        ).len() == 0,
    decreases s.len(),
{
    if !(s.len() == 0 || stored_bytes(s) + extra <= max) {
        lemma_oldest_index(s);
        lemma_evict_fits(s.remove(oldest_index(s)), extra, max);
    }
}

/// Every tile kept by `evict_oldest` was in the input, and every tile it
/// dropped is no newer than any tile it kept.
proof fn lemma_evict_oldest_first(s: Seq<StoredTile>, extra: nat, max: nat)
    ensures
        forall|j: int|
            0 <= j < evict_oldest(s, extra, max).len() ==> s.contains(
                #[trigger] evict_oldest(s, extra, max)[j],
            ),
        forall|i: int, j: int|
            #![trigger s[i], evict_oldest(s, extra, max)[j]]
            0 <= i < s.len() && !evict_oldest(s, extra, max).contains(s[i]) && 0 <= j
                < evict_oldest(s, extra, max).len() ==> s[i].created <= evict_oldest(
                s,
                extra,
                max,
            )[j].created,
    decreases s.len(),
{
    if !(s.len() == 0 || stored_bytes(s) + extra <= max) {
        lemma_oldest_index(s);
        let o = oldest_index(s);
        let d = s.remove(o);
        lemma_evict_oldest_first(d, extra, max);
        let r = evict_oldest(d, extra, max);
        assert(r == evict_oldest(s, extra, max));
        assert forall|j: int| 0 <= j < r.len() implies s.contains(#[trigger] r[j]) by {
            assert(d.contains(r[j]));
            let k = choose|k: int| 0 <= k < d.len() && d[k] == r[j];
            let sk = if k < o { k } else { k + 1 };
            assert(s[sk] == d[k]);
        }
        assert forall|i: int, j: int|
            #![trigger s[i], r[j]]
            0 <= i < s.len() && !r.contains(s[i]) && 0 <= j < r.len() implies s[i].created
            <= r[j].created by {
            assert(d.contains(r[j]));
            let k = choose|k: int| 0 <= k < d.len() && d[k] == r[j];
            let sk = if k < o { k } else { k + 1 };
            assert(s[sk] == d[k]);
            if i != o {
                let di = if i < o { i } else { i - 1 };
                assert(d[di] == s[i]);
            }
        }
    }
}

/// Making room only drops tiles, never changes one; when eviction is needed
/// it drops every expired tile, and every tile it drops while still fresh is
/// no newer than any tile it keeps.
pub proof fn law_make_room_evicts_oldest(
    s: Seq<StoredTile>,
    extra: nat,
    max: nat,
    now: u64,
    ttl_seconds: u64,
)
    ensures
        ({
            let r = make_room(s, extra, max, now, ttl_seconds);
            &&& forall|j: int| 0 <= j < r.len() ==> s.contains(#[trigger] r[j])
            &&& stored_bytes(s) + extra <= max ==> r == s
            &&& stored_bytes(s) + extra > max ==> forall|j: int|
                0 <= j < r.len() ==> is_fresh(#[trigger] r[j].created, now, ttl_seconds)
            &&& forall|i: int, j: int|
                #![trigger s[i], r[j]]
                0 <= i < s.len() && is_fresh(s[i].created, now, ttl_seconds) && !r.contains(s[i])
                    && 0 <= j < r.len() ==> s[i].created <= r[j].created
        }),
{
    let p = |t: StoredTile| is_fresh(t.created, now, ttl_seconds);
    let r = make_room(s, extra, max, now, ttl_seconds);
    if stored_bytes(s) + extra > max {
        let f = s.filter(p);
        lemma_evict_oldest_first(f, extra, max);
        broadcast use vstd::seq_lib::group_filter_ensures;

        assert forall|j: int| 0 <= j < r.len() implies s.contains(#[trigger] r[j]) && is_fresh(
            r[j].created,
            now,
            ttl_seconds,
        ) by {
            assert(f.contains(r[j]));
            let k = choose|k: int| 0 <= k < f.len() && f[k] == r[j];
            s.lemma_filter_pred(p, k);
            s.lemma_filter_contains_rev(p, r[j]);
        }
        assert forall|i: int, j: int|
            #![trigger s[i], r[j]]
            0 <= i < s.len() && is_fresh(s[i].created, now, ttl_seconds) && !r.contains(s[i]) && 0
                <= j < r.len() implies s[i].created <= r[j].created by {
            s.lemma_filter_contains(p, i);
            let k = choose|k: int| 0 <= k < f.len() && f[k] == s[i];
            assert(f[k] == s[i]);
        }
    }
}

/// What a lookup finds right after storing a tile is that tile, whatever
/// room had to be made for it.
pub proof fn law_put_then_get(
    s: Seq<StoredTile>,
    t: StoredTile,
    max: nat,
    now: u64,
    ttl_seconds: u64,
)
    requires
        keys_distinct(s),
    ensures
        lookup(store(make_room(s, t.data.len(), max, now, ttl_seconds), t), t.key) == Some(t),
        keys_distinct(store(make_room(s, t.data.len(), max, now, ttl_seconds), t)),
{
    let p = |t: StoredTile| is_fresh(t.created, now, ttl_seconds);
    lemma_filter_distinct(s, p);
    lemma_evict_distinct(s.filter(p), t.data.len(), max);
    lemma_store(make_room(s, t.data.len(), max, now, ttl_seconds), t);
}

/// Storing under one key leaves what a lookup finds under any other key
/// unchanged.
pub proof fn law_store_keeps_other_keys(s: Seq<StoredTile>, t: StoredTile, k: Seq<char>)
    requires
        keys_distinct(s),
        k != t.key,
    ensures
        lookup(store(s, t), k) == lookup(s, k),
{
    lemma_store(s, t);
    lemma_key_index(s, k);
    lemma_key_index(s, t.key);
    let r = store(s, t);
    lemma_key_index(r, k);
    let i = key_index(s, k);
    if i >= 0 {
        if key_index(s, t.key) >= 0 {
            assert(r[i] == s[i]);
        } else {
            assert(r[i] == s[i]);
        }
    } else {
        assert forall|j: int| 0 <= j < r.len() implies r[j].key != k by {
            if j < s.len() && j != key_index(s, t.key) {
                assert(r[j] == s[j]);
            }
        }
    }
}

/// After an invalidation no remaining tile matches the filters, and every
/// tile that does not match is still there.
pub proof fn law_invalidate_exact(
    s: Seq<StoredTile>,
    model: Option<Seq<char>>,
    var: Option<Seq<char>>,
    level: Option<Seq<char>>,
)
    ensures
        ({
            let r = s.filter(|t: StoredTile| !invalidated_by(t.key, model, var, level));
            &&& forall|j: int| 0 <= j < r.len() ==> !invalidated_by(#[trigger] r[j].key, model, var, level)
            &&& forall|i: int|
                0 <= i < s.len() && !invalidated_by(s[i].key, model, var, level) ==> r.contains(
                    #[trigger] s[i],
                )
        }),
{
    let p = |t: StoredTile| !invalidated_by(t.key, model, var, level);
    broadcast use vstd::seq_lib::group_filter_ensures;

    assert forall|i: int| 0 <= i < s.len() && !invalidated_by(s[i].key, model, var, level) implies s.filter(
        p,
    ).contains(#[trigger] s[i]) by {
        s.lemma_filter_contains_rev(p, s[i]);
    }
}

/// Invalidating by a model removes every tile of that model, whatever its
/// variable, level, hour and position, and invalidating with no filters
/// removes every tile, as long as model, variable and level names hold no
/// '/'.
pub proof fn law_invalidate_by_model_matches_key(
    model: Seq<char>,
    var: Seq<char>,
    level: Seq<char>,
    fhour: u32,
    z: u32,
    x: u32,
    y: u32,
)
    requires
        !model.contains('/'),
        !var.contains('/'),
        !level.contains('/'),
    ensures
        invalidated_by(tile_key(model, var, level, fhour, z, x, y), None, None, None),
        invalidated_by(tile_key(model, var, level, fhour, z, x, y), Some(model), None, None),
        invalidated_by(
            tile_key(model, var, level, fhour, z, x, y),
            Some(model),
            Some(var),
            Some(level),
        ),
{
    let k = tile_key(model, var, level, fhour, z, x, y);
    let after = decimal_padded(fhour as nat, 2) + seq!['/'] + decimal(z as nat) + seq!['/']
        + decimal(x as nat) + seq!['/'] + decimal(y as nat);
    let r2 = level + seq!['/', 'f'] + after;
    let r1 = var + seq!['/'] + r2;
    assert(k =~= model + seq!['/'] + r1);
    lemma_field_split(model, r1);
    lemma_field_split(var, r2);
    lemma_field_split(level, seq!['f'] + after);
    assert(r2 =~= level + seq!['/'] + (seq!['f'] + after));
}

/// In `f + "/" + rest` with no '/' in `f`, the first field is `f` and the
/// remaining fields are `rest`.
proof fn lemma_field_split(f: Seq<char>, rest: Seq<char>)
    requires
        !f.contains('/'),
    ensures
        has_slash(f + seq!['/'] + rest),
        head_field(f + seq!['/'] + rest) == f,
        tail_fields(f + seq!['/'] + rest) == rest,
{
    let s = f + seq!['/'] + rest;
    assert forall|j: int| 0 <= j < f.len() implies s[j] != '/' by {
        assert(s[j] == f[j]);
        if f[j] == '/' {
            assert(f.contains('/'));
        }
    }
    assert(s[f.len() as int] == '/');
    lemma_slash_pos_at(s, f.len() as int);
    assert(s.take(f.len() as int) =~= f);
    assert(s.skip(f.len() as int + 1) =~= rest);
}

/// A '/' at `j` bounds the first '/'.
proof fn lemma_slash_at(s: Seq<char>, j: int)
    requires
        0 <= j < s.len(),
        s[j] == '/',
    ensures
        slash_pos(s) <= j,
    decreases s.len(),
{
    if s[0] != '/' {
        assert(s.drop_first()[j - 1] == s[j]);
        lemma_slash_at(s.drop_first(), j - 1);
    }
}

/// Every key that `tile_key` builds has the shape of a tile key.
proof fn lemma_tile_key_shape(model: Seq<char>, var: Seq<char>, level: Seq<char>, fhour: u32, z: u32, x: u32, y: u32)
    ensures
        is_tile_key(tile_key(model, var, level, fhour, z, x, y)),
{
    let k = tile_key(model, var, level, fhour, z, x, y);
    let a = model.len() as int;
    let b = a + 1 + var.len();
    assert(k[a] == '/');
    assert(k[b] == '/');
    lemma_slash_at(k, a);
    let sp = slash_pos(k) as int;
    let t = tail_fields(k);
    assert(t == k.skip(sp + 1));
    assert(t[b - sp - 1] == k[b]);
    lemma_slash_at(t, b - sp - 1);
}

/// Keeping some tiles keeps every key of tile-key shape.
proof fn lemma_filter_tile_keys(s: Seq<StoredTile>, p: spec_fn(StoredTile) -> bool)
    requires
        keys_distinct(s),
        all_tile_keys(s),
    ensures
        all_tile_keys(s.filter(p)),
{
    lemma_filter_distinct(s, p);
    assert forall|i: int| 0 <= i < s.filter(p).len() implies is_tile_key(#[trigger] s.filter(p)[i].key) by {
        assert(s.contains(s.filter(p)[i]));
        let j = choose|j: int| 0 <= j < s.len() && s[j] == s.filter(p)[i];
        assert(is_tile_key(s[j].key));
    }
}

/// Removing a tile keeps every key of tile-key shape.
proof fn lemma_remove_tile_keys(s: Seq<StoredTile>, i: int)
    requires
        all_tile_keys(s),
        0 <= i < s.len(),
    ensures
        all_tile_keys(s.remove(i)),
{
    assert forall|j: int| 0 <= j < s.remove(i).len() implies is_tile_key(#[trigger] s.remove(i)[j].key) by {
        if j < i {
            assert(s.remove(i)[j] == s[j]);
        } else {
            assert(s.remove(i)[j] == s[j + 1]);
        }
    }
}

/// With no filters given, an invalidation removes every stored tile: the
/// tiles it keeps are none.
pub proof fn law_no_filters_remove_all(s: Seq<StoredTile>)
    requires
        keys_distinct(s),
        all_tile_keys(s),
    ensures
        s.filter(|t: StoredTile| !invalidated_by(t.key, None, None, None)).len() == 0,
{
    broadcast use vstd::seq_lib::group_filter_ensures;

    let p = |t: StoredTile| !invalidated_by(t.key, None, None, None);
    let f = s.filter(p);
    lemma_filter_distinct(s, p);
    if f.len() > 0 {
        assert(p(f[0]));
        assert(s.contains(f[0]));
        let j = choose|j: int| 0 <= j < s.len() && s[j] == f[0];
        assert(is_tile_key(s[j].key));
    }
}

} // verus!
