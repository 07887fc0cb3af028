//! NEXRAD Level 2 scan listings: the timestamp encoded in a scan's file
//! name and the scans of a NOMADS directory listing.
use vstd::prelude::*;
use crate::text::{
    all_ascii_digits, all_digits, append, chars_of, contains_seq, has_suffix, insert_by_key,
    law_sort_by_key_sorts, lemma_insert_at, lex_lt, owned, sort_by_key, split_by, split_by_str, split_on, split_str,
    split_whitespace, str_contains, str_ends_with, str_lt, string_from_range, trim_prefix_all,
    trim_space, trim_start_all, trim_str, words, to_upper, unicode_upper, opt_chars,
};
use crate::keyed_cache::{distinct_keys, fresh_ages, find, stored, Entry, KeyedCache};
use crate::tile_cache::is_fresh;

verus! {

/// A single radar scan entry from the NOMADS directory listing.
#[derive(Debug)]
pub struct ScanEntry {
    pub filename: String,
    /// ISO-like time from the file name, e.g. "2026-03-12T02:09:06Z".
    pub timestamp: String,
    /// Last-modified time from the directory listing.
    pub modified: String,
}

/// The text of a scan entry: file name, timestamp, modification time.
pub open spec fn scan_text(e: ScanEntry) -> (Seq<char>, Seq<char>, Seq<char>) {
    (e.filename@, e.timestamp@, e.modified@)
}

/// The ISO time of a scan file named `filename` for `site`: after the site
/// prefix and any underscores, the name must start "YYYYMMDD_HHMMSS"
/// (eight digits, any character, six digits); otherwise empty.
pub open spec fn scan_timestamp(filename: Seq<char>, site: Seq<char>) -> Seq<char> {
    let rest = trim_prefix_all(trim_prefix_all(filename, site), "_"@);
    if rest.len() >= 15 && all_digits(rest.subrange(0, 8)) && all_digits(rest.subrange(9, 15)) {
        rest.subrange(0, 4) + "-"@ + rest.subrange(4, 6) + "-"@ + rest.subrange(6, 8) + "T"@
            + rest.subrange(9, 11) + ":"@ + rest.subrange(11, 13) + ":"@ + rest.subrange(13, 15)
            + "Z"@
    } else {
        Seq::empty()
    }
}

/// Extract an ISO timestamp from a NOMADS radar filename.
pub fn parse_scan_timestamp(filename: &str, site: &str) -> (r: String)
    ensures
        r@ == scan_timestamp(filename@, site@),
{
    let a = trim_start_all(filename, site);
    let rest = trim_start_all(a.as_str(), "_");
    let v = chars_of(rest.as_str());
    if v.len() < 15 {
        return String::new();
    }
    let date = string_from_range(&v, 0, 8);
    let time = string_from_range(&v, 9, 15);
    if !(all_ascii_digits(date.as_str()) && all_ascii_digits(time.as_str())) {
        return String::new();
    }
    let mut out = string_from_range(&v, 0, 4);
    append(&mut out, "-");
    append(&mut out, string_from_range(&v, 4, 6).as_str());
    append(&mut out, "-");
    append(&mut out, string_from_range(&v, 6, 8).as_str());
    append(&mut out, "T");
    append(&mut out, string_from_range(&v, 9, 11).as_str());
    append(&mut out, ":");
    append(&mut out, string_from_range(&v, 11, 13).as_str());
    append(&mut out, ":");
    append(&mut out, string_from_range(&v, 13, 15).as_str());
    append(&mut out, "Z");
    out
}

/// The file name a listing chunk links to: its text up to the first '"'.
pub open spec fn chunk_filename(chunk: Seq<char>) -> Seq<char> {
    split_on(chunk, '"')[0]
}

/// The modification time after a chunk's link: the first two words of
/// the text between its first and second "</a>", joined by a space;
/// empty when there are fewer.
pub open spec fn chunk_modified(chunk: Seq<char>) -> Seq<char> {
    let pieces = split_str(chunk, "</a>"@);
    let after = if pieces.len() > 1 {
        pieces[1]
    } else {
        Seq::empty()
    };
    let ws = words(trim_space(after));
    if ws.len() >= 2 {
        ws[0] + " "@ + ws[1]
    } else {
        Seq::empty()
    }
}

/// A linked file is a scan of `site`: a plain file name that mentions the
/// site and is compressed or names a volume coverage pattern.
pub open spec fn is_scan_file(filename: Seq<char>, site: Seq<char>) -> bool {
    !contains_seq(filename, "/"@) && contains_seq(filename, site) && (has_suffix(filename, ".bz2"@)
        || has_suffix(filename, ".gz"@) || contains_seq(filename, "_V0"@))
}

/// The scan entries of listing chunks, in listing order.
pub open spec fn chunk_entries(chunks: Seq<Seq<char>>, site: Seq<char>) -> Seq<
    (Seq<char>, Seq<char>, Seq<char>),
>
    decreases chunks.len(),
{
    if chunks.len() == 0 {
        Seq::empty()
    } else {
        let rest = chunk_entries(chunks.drop_last(), site);
        let c = chunks.last();
        let f = chunk_filename(c);
        if is_scan_file(f, site) {
            rest.push((f, scan_timestamp(f, site), chunk_modified(c)))
        } else {
            rest
        }
    }
}

/// The key scan entries are sorted by: the file name.
pub open spec fn by_filename() -> spec_fn((Seq<char>, Seq<char>, Seq<char>)) -> Seq<char> {
    |e: (Seq<char>, Seq<char>, Seq<char>)| e.0
}

/// The scans of `site_upper` in a NOMADS directory listing: one per
/// `href="` link to a scan file, sorted stably by file name.
pub open spec fn listing_scans(html: Seq<char>, site_upper: Seq<char>) -> Seq<
    (Seq<char>, Seq<char>, Seq<char>),
> {
    let chunks = split_str(html, "href=\""@);
    sort_by_key(chunk_entries(chunks.skip(1), site_upper), by_filename())
}

/// The entry of a chunk whose file is a scan is among the entries of
/// the chunks.
proof fn lemma_chunk_entries_keep(chunks: Seq<Seq<char>>, site: Seq<char>, j: int)
    requires
        0 <= j < chunks.len(),
        is_scan_file(chunk_filename(chunks[j]), site),
    ensures
        chunk_entries(chunks, site).contains(
            (
                chunk_filename(chunks[j]),
                scan_timestamp(chunk_filename(chunks[j]), site),
                chunk_modified(chunks[j]),
            ),
        ),
    decreases chunks.len(),
{
    let c = chunks[j];
    let x = (chunk_filename(c), scan_timestamp(chunk_filename(c), site), chunk_modified(c));
    let rest = chunk_entries(chunks.drop_last(), site);
    if j == chunks.len() - 1 {
        assert(rest.push(x)[rest.len() as int] == x);
    } else {
        assert(chunks.drop_last()[j] == c);
        lemma_chunk_entries_keep(chunks.drop_last(), site, j);
        let k = choose|k: int| 0 <= k < rest.len() && rest[k] == x;
        if is_scan_file(chunk_filename(chunks.last()), site) {
            let y = (
                chunk_filename(chunks.last()),
                scan_timestamp(chunk_filename(chunks.last()), site),
                chunk_modified(chunks.last()),
            );
            assert(rest.push(y)[k] == x);
        }
    }
}

/// Each entry of the chunks is the entry of a chunk whose file is a scan.
proof fn lemma_chunk_entries_from(chunks: Seq<Seq<char>>, site: Seq<char>, x: (Seq<char>, Seq<char>, Seq<char>))
    requires
        chunk_entries(chunks, site).contains(x),
    ensures
        exists|j: int|
            0 <= j < chunks.len() && is_scan_file(chunk_filename(#[trigger] chunks[j]), site) && x == (
                chunk_filename(chunks[j]),
                scan_timestamp(chunk_filename(chunks[j]), site),
                chunk_modified(chunks[j]),
            ),
    decreases chunks.len(),
{
    let rest = chunk_entries(chunks.drop_last(), site);
    let j = chunks.len() - 1;
    let c = chunks.last();
    let y = (chunk_filename(c), scan_timestamp(chunk_filename(c), site), chunk_modified(c));
    if is_scan_file(chunk_filename(c), site) && x == y {
        assert(chunks[j] == c);
    } else {
        let k = choose|k: int| 0 <= k < chunk_entries(chunks, site).len() && chunk_entries(chunks, site)[k] == x;
        if is_scan_file(chunk_filename(c), site) {
            assert(k < rest.len());
            assert(rest[k] == x);
        }
        assert(rest.contains(x));
        lemma_chunk_entries_from(chunks.drop_last(), site, x);
        let i = choose|i: int|
            0 <= i < chunks.drop_last().len() && is_scan_file(chunk_filename(#[trigger] chunks.drop_last()[i]), site)
                && x == (
                chunk_filename(chunks.drop_last()[i]),
                scan_timestamp(chunk_filename(chunks.drop_last()[i]), site),
                chunk_modified(chunks.drop_last()[i]),
            );
        assert(chunks[i] == chunks.drop_last()[i]);
    }
}

/// A listing yields entries for scan links only: each entry is that of a
/// link to a plain file name (no '/') that mentions the site and ends in
/// ".bz2" or ".gz", or names a volume coverage pattern ("_V0").
pub proof fn law_listing_only_scans(
    html: Seq<char>,
    site_upper: Seq<char>,
    x: (Seq<char>, Seq<char>, Seq<char>),
)
    requires
        listing_scans(html, site_upper).contains(x),
    ensures
        exists|k: int|
            1 <= k < split_str(html, "href=\""@).len() && {
                let f = chunk_filename(#[trigger] split_str(html, "href=\""@)[k]);
                &&& !contains_seq(f, "/"@)
                &&& contains_seq(f, site_upper)
                &&& has_suffix(f, ".bz2"@) || has_suffix(f, ".gz"@) || contains_seq(f, "_V0"@)
                &&& x == (f, scan_timestamp(f, site_upper), chunk_modified(split_str(html, "href=\""@)[k]))
            },
{
    broadcast use vstd::seq_lib::group_to_multiset_ensures;

    let chunks = split_str(html, "href=\""@).skip(1);
    let es = chunk_entries(chunks, site_upper);
    law_sort_by_key_sorts(es, by_filename());
    assert(sort_by_key(es, by_filename()).to_multiset().count(x) > 0);
    assert(es.to_multiset().count(x) > 0);
    lemma_chunk_entries_from(chunks, site_upper, x);
    let j = choose|j: int|
        0 <= j < chunks.len() && is_scan_file(chunk_filename(#[trigger] chunks[j]), site_upper) && x == (
            chunk_filename(chunks[j]),
            scan_timestamp(chunk_filename(chunks[j]), site_upper),
            chunk_modified(chunks[j]),
        );
    assert(split_str(html, "href=\""@)[j + 1] == chunks[j]);
}

/// Every link of a listing to a plain file name (no '/') that mentions
/// the site and ends in ".bz2" or ".gz", or names a volume coverage
/// pattern ("_V0"), yields a scan entry: its file name, the timestamp
/// read from it, and the modification time after the link.
pub proof fn law_listing_keeps_scans(html: Seq<char>, site_upper: Seq<char>, k: int)
    requires
        1 <= k < split_str(html, "href=\""@).len(),
        !contains_seq(chunk_filename(split_str(html, "href=\""@)[k]), "/"@),
        contains_seq(chunk_filename(split_str(html, "href=\""@)[k]), site_upper),
        has_suffix(chunk_filename(split_str(html, "href=\""@)[k]), ".bz2"@) || has_suffix(
            chunk_filename(split_str(html, "href=\""@)[k]),
            ".gz"@,
        ) || contains_seq(chunk_filename(split_str(html, "href=\""@)[k]), "_V0"@),
    ensures
        listing_scans(html, site_upper).contains(
            (
                chunk_filename(split_str(html, "href=\""@)[k]),
                scan_timestamp(chunk_filename(split_str(html, "href=\""@)[k]), site_upper),
                chunk_modified(split_str(html, "href=\""@)[k]),
            ),
        ),
{
    broadcast use vstd::seq_lib::group_to_multiset_ensures;

    let chunks = split_str(html, "href=\""@).skip(1);
    let c = split_str(html, "href=\""@)[k];
    let x = (chunk_filename(c), scan_timestamp(chunk_filename(c), site_upper), chunk_modified(c));
    assert(chunks[k - 1] == c);
    lemma_chunk_entries_keep(chunks, site_upper, k - 1);
    let es = chunk_entries(chunks, site_upper);
    law_sort_by_key_sorts(es, by_filename());
    assert(es.to_multiset().count(x) > 0);
    assert(sort_by_key(es, by_filename()).to_multiset().count(x) > 0);
}

/// The entry for one listing chunk.
fn chunk_entry(chunk: &str, site_upper: &str) -> (r: Option<ScanEntry>)
    ensures
        match r {
            Some(e) => is_scan_file(chunk_filename(chunk@), site_upper@) && scan_text(e) == (
                chunk_filename(chunk@),
                scan_timestamp(chunk_filename(chunk@), site_upper@),
                chunk_modified(chunk@),
            ),
            None => !is_scan_file(chunk_filename(chunk@), site_upper@),
        },
{
    let names = split_by(chunk, '"');
    let filename = names[0].as_str();
    if str_contains(filename, "/") {
        return None;
    }
    if !str_contains(filename, site_upper) {
        return None;
    }
    if !(str_ends_with(filename, ".bz2") || str_ends_with(filename, ".gz") || str_contains(
        filename,
        "_V0",
    )) {
        return None;
    }
    let timestamp = parse_scan_timestamp(filename, site_upper);
    proof {
        reveal_strlit("</a>");
    }
    let pieces = split_by_str(chunk, "</a>");
    let after: String = if pieces.len() > 1 {
        trim_str(pieces[1].as_str())
    } else {
        String::new()
    };
    let parts = split_whitespace(after.as_str());
    let modified = if parts.len() >= 2 {
        let mut m = owned(parts[0].as_str());
        append(&mut m, " ");
        append(&mut m, parts[1].as_str());
        m
    } else {
        String::new()
    };
    proof {
        reveal_strlit("");
        assert(trim_space(Seq::<char>::empty()) =~= Seq::<char>::empty());
    }
    Some(ScanEntry { filename: owned(filename), timestamp, modified })
}

/// Insert `e` into `out` after the last entry whose file name does not
/// come after its own.
fn insert_scan(out: &mut Vec<ScanEntry>, e: ScanEntry)
    ensures
        final(out)@.map_values(|x: ScanEntry| scan_text(x)) == insert_by_key(
            old(out)@.map_values(|x: ScanEntry| scan_text(x)),
            scan_text(e),
            by_filename(),
        ),
{
    let ghost t = out@.map_values(|x: ScanEntry| scan_text(x));
    let ghost x = scan_text(e);
    let mut j = out.len();
    while j > 0 && str_lt(e.filename.as_str(), out[j - 1].filename.as_str())
        invariant
            j <= out@.len(),
            t == out@.map_values(|x: ScanEntry| scan_text(x)),
            x == scan_text(e),
            forall|i: int| j <= i < t.len() ==> lex_lt(x.0, (#[trigger] t[i]).0),
        decreases j,
    {
        j -= 1;
    }
    proof {
        let key = by_filename();
        assert forall|i: int| j <= i < t.len() implies lex_lt(key(x), key(#[trigger] t[i])) by {}
        if j > 0 {
            assert(t[j - 1] == scan_text(out@[j - 1]));
        }
        lemma_insert_at(t, x, key, j as int);
    }
    out.insert(j, e);
    proof {
        assert(out@.map_values(|x: ScanEntry| scan_text(x)) =~= t.take(j as int) + seq![x] + t.skip(j as int));
    }
}

/// Parse a NOMADS directory listing and return the scan entries for
/// `site_upper`, sorted by file name.
pub fn parse_nomads_listing(html: &str, site_upper: &str) -> (r: Vec<ScanEntry>)
    ensures
        r@.map_values(|x: ScanEntry| scan_text(x)) == listing_scans(html@, site_upper@),
{
    proof {
        reveal_strlit("href=\"");
    }
    let chunks = split_by_str(html, "href=\"");
    let ghost cs = split_str(html@, "href=\""@).skip(1);
    let mut out: Vec<ScanEntry> = Vec::new();
    let mut i: usize = 1;
    while i < chunks.len()
        invariant
            1 <= i <= chunks.len() || chunks.len() == 0,
            chunks@.len() == split_str(html@, "href=\""@).len(),
            forall|k: int| 0 <= k < chunks@.len() ==> (#[trigger] chunks@[k])@ == split_str(html@, "href=\""@)[k],
            cs == split_str(html@, "href=\""@).skip(1),
            out@.map_values(|x: ScanEntry| scan_text(x)) == sort_by_key(
                chunk_entries(cs.take(i - 1), site_upper@),
                by_filename(),
            ),
        decreases chunks.len() - i,
    {
        let ghost pre = cs.take(i - 1);
        let ghost now = cs.take(i as int);
        proof {
            assert(now.drop_last() =~= pre);
            assert(now.last() == chunks@[i as int]@);
        }
        match chunk_entry(chunks[i].as_str(), site_upper) {
            Some(e) => {
                proof {
                    let es = chunk_entries(pre, site_upper@);
                    assert(chunk_entries(now, site_upper@) == es.push(scan_text(e)));
                    assert(es.push(scan_text(e)).drop_last() =~= es);
                }
                insert_scan(&mut out, e);
            },
            None => {},
        }
        i += 1;
    }
    proof {
        if chunks.len() > 0 {
            assert(cs.take(i - 1) =~= cs);
        } else {
            assert(false);
        }
    }
    out
}

/// Seconds a decoded radar volume is kept.
pub const RADAR_TTL_SECS: u64 = 120;

/// Decoded radar volumes by site ID (upper-cased, e.g. "KTLX", or
/// "KTLX::file" for one scan). A store drops expired volumes first.
pub struct RadarCache<V> {
    store: KeyedCache<String, V>,
}

impl<V> RadarCache<V> {
    /// The volumes, oldest store first.
    pub closed spec fn view(&self) -> Seq<Entry<Seq<char>, V>> {
        self.store.view()
    }

    #[verifier::type_invariant]
    spec fn keeps_radar_policy(&self) -> bool {
        &&& self.store.ttl() == RADAR_TTL_SECS
        &&& self.store.limit() == Some(0usize)
    }

    /// An empty cache.
    pub fn new() -> (r: Self)
        ensures
            r.view() == Seq::<Entry<Seq<char>, V>>::empty(),
    {
        RadarCache { store: KeyedCache::new(RADAR_TTL_SECS, Some(0)) }
    }

    /// The volume stored for `site` (in any case), if still fresh at `now`.
    pub fn get(&self, site: &str, now: u64) -> (r: Option<&V>)
        ensures
            match find(self.view(), unicode_upper(site@)) {
                Some((v, t)) => if is_fresh(t, now, RADAR_TTL_SECS) {
                    r == Some(&v)
                } else {
                    r is None
                },
                None => r is None,
            },
    {
        proof {
            use_type_invariant(self);
        }
        let key = to_upper(site);
        self.store.get(&key, now)
    }

    /// Each site still fresh at `now`, with the age of its volume in whole
    /// seconds.
    pub fn get_status(&self, now: u64) -> (r: Vec<(String, u64)>)
        ensures
            r@.map_values(|p: (String, u64)| (p.0@, p.1)) == fresh_ages(self.view(), now, RADAR_TTL_SECS),
    {
        proof {
            use_type_invariant(self);
        }
        self.store.fresh_ages(now)
    }

    /// Store `radar` for `site` (upper-cased) at `now`, after dropping the
    /// expired volumes.
    pub fn put(&mut self, site: &str, radar: V, now: u64)
        ensures
            final(self).view() == stored(
                old(self).view(),
                unicode_upper(site@),
                radar,
                now,
                RADAR_TTL_SECS,
                Some(0usize),
            ),
            distinct_keys(final(self).view()),
    {
        proof {
            use_type_invariant(&*self);
        }
        let key = to_upper(site);
        let mut store = KeyedCache::new(RADAR_TTL_SECS, Some(0));
        std::mem::swap(&mut store, &mut self.store);
        store.put(key, radar, now);
        self.store = store;
    }
}

/// The cache key of a radar request: the site upper-cased, or for one
/// scan file the site, "::" and the file name.
pub open spec fn radar_key_of(site: Seq<char>, scan_file: Option<Seq<char>>) -> Seq<char> {
    match scan_file {
        Some(f) => unicode_upper(site) + "::"@ + f,
        None => unicode_upper(site),
    }
}

/// The cache key of a radar request (see `radar_key_of`).
pub fn radar_cache_key(site: &str, scan_file: Option<&str>) -> (r: String)
    ensures
        r@ == radar_key_of(site@, opt_chars(scan_file)),
{
    let mut k = to_upper(site);
    match scan_file {
        Some(f) => {
            append(&mut k, "::");
            append(&mut k, f);
        },
        None => {},
    }
    k
}

} // verus!
