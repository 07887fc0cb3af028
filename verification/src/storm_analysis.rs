//! Storm analysis input: the volume-scan keys of an S3 bucket listing and
//! the choice of the most recent scans.
use vstd::prelude::*;
use crate::text::{
    contains_seq, first_occ, first_occ_from, chars_of, has_suffix, insert_by_key, lemma_first_occ,
    lemma_insert_at, lex_lt, sort_by_key, split_by_str, split_str, str_contains, str_ends_with,
    str_lt, string_from_range,
};

verus! {

/// The key held by one piece of a listing split at "<Key>": its text up to
/// the first "</Key>", when there is one.
pub open spec fn segment_key(segment: Seq<char>) -> Option<Seq<char>> {
    match first_occ(segment, "</Key>"@, 0) {
        Some(end) => Some(segment.take(end)),
        None => None,
    }
}

/// A key names a volume scan rather than a metadata file.
pub open spec fn is_volume_key(key: Seq<char>) -> bool {
    !has_suffix(key, "_MDM"@) && !contains_seq(key, "_MDM."@)
}

/// The volume-scan keys of listing pieces, in order.
pub open spec fn segment_keys(segments: Seq<Seq<char>>) -> Seq<Seq<char>>
    decreases segments.len(),
{
    if segments.len() == 0 {
        Seq::empty()
    } else {
        let rest = segment_keys(segments.drop_last());
        match segment_key(segments.last()) {
            Some(k) => if is_volume_key(k) {
                rest.push(k)
            } else {
                rest
            },
            None => rest,
        }
    }
}

/// The volume-scan keys of an S3 listing body, in listing order.
pub open spec fn listing_keys(body: Seq<char>) -> Seq<Seq<char>> {
    segment_keys(split_str(body, "<Key>"@).skip(1))
}

/// The volume-scan keys of an S3 listing body; `None` when there are none.
pub fn parse_s3_keys(body: &str) -> (r: Option<Vec<String>>)
    ensures
        match r {
            Some(keys) => listing_keys(body@).len() > 0 && keys@.len() == listing_keys(body@).len()
                && forall|i: int| 0 <= i < keys@.len() ==> (#[trigger] keys@[i])@ == listing_keys(body@)[i],
            None => listing_keys(body@).len() == 0,
        },
{
    proof {
        reveal_strlit("<Key>");
        reveal_strlit("</Key>");
    }
    let segments = split_by_str(body, "<Key>");
    let ghost ss = split_str(body@, "<Key>"@).skip(1);
    let close = chars_of("</Key>");
    let mut keys: Vec<String> = Vec::new();
    let mut i: usize = 1;
    while i < segments.len()
        invariant
            1 <= i <= segments.len() || segments.len() == 0,
            segments@.len() == split_str(body@, "<Key>"@).len(),
            forall|k: int| 0 <= k < segments@.len() ==> (#[trigger] segments@[k])@ == split_str(body@, "<Key>"@)[k],
            ss == split_str(body@, "<Key>"@).skip(1),
            close@ == "</Key>"@,
            keys@.len() == segment_keys(ss.take(i - 1)).len(),
            forall|k: int| 0 <= k < keys@.len() ==> (#[trigger] keys@[k])@ == segment_keys(ss.take(i - 1))[k],
        decreases segments.len() - i,
    {
        let ghost now = ss.take(i as int);
        let ghost before = segment_keys(ss.take(i - 1));
        proof {
            assert(now.drop_last() =~= ss.take(i - 1));
            assert(now.last() == segments@[i as int]@);
        }
        let seg = chars_of(segments[i].as_str());
        match first_occ_from(&seg, &close, 0) {
            Some(end) => {
                proof {
                    lemma_first_occ(seg@, close@, 0);
                }
                let key = string_from_range(&seg, 0, end);
                assert(key@ =~= seg@.take(end as int));
                if !str_ends_with(key.as_str(), "_MDM") && !str_contains(key.as_str(), "_MDM.") {
                    keys.push(key);
                    proof {
                        assert(segment_keys(now) == before.push(key@));
                        assert forall|k: int| 0 <= k < keys@.len() implies (#[trigger] keys@[k])@ == before.push(key@)[k] by {}
                    }
                }
            },
            None => {},
        }
        i += 1;
    }
    proof {
        if segments.len() > 0 {
            assert(ss.take(i - 1) =~= ss);
        } else {
            assert(false);
        }
    }
    if keys.len() == 0 {
        None
    } else {
        Some(keys)
    }
}

/// Keys are sorted by themselves.
pub open spec fn by_itself() -> spec_fn(Seq<char>) -> Seq<char> {
    |k: Seq<char>| k
}

/// The most recent `count` keys: the keys sorted (file names hold their
/// times), then all but the last `count` dropped.
pub open spec fn recent(keys: Seq<Seq<char>>, count: nat) -> Seq<Seq<char>> {
    let sorted = sort_by_key(keys, by_itself());
    if sorted.len() > count {
        sorted.skip(sorted.len() - count)
    } else {
        sorted
    }
}

/// Insert `k` into `out` after the last key that does not come after it.
fn insert_key(out: &mut Vec<String>, k: String)
    ensures
        final(out)@.map_values(|x: String| x@) == insert_by_key(
            old(out)@.map_values(|x: String| x@),
            k@,
            by_itself(),
        ),
{
    let ghost t = out@.map_values(|x: String| x@);
    let mut j = out.len();
    while j > 0 && str_lt(k.as_str(), out[j - 1].as_str())
        invariant
            j <= out@.len(),
            t == out@.map_values(|x: String| x@),
            forall|i: int| j <= i < t.len() ==> lex_lt(k@, #[trigger] t[i]),
        decreases j,
    {
        j -= 1;
    }
    proof {
        let key = by_itself();
        assert forall|i: int| j <= i < t.len() implies lex_lt(key(k@), key(#[trigger] t[i])) by {}
        lemma_insert_at(t, k@, key, j as int);
    }
    out.insert(j, k);
    proof {
        assert(out@.map_values(|x: String| x@) =~= t.take(j as int) + seq![k@] + t.skip(j as int));
    }
}

/// Sort scan keys and keep the most recent `count` of them.
pub fn select_recent(keys: &Vec<String>, count: usize) -> (r: Vec<String>)
    ensures
        r@.map_values(|x: String| x@) == recent(keys@.map_values(|x: String| x@), count as nat),
{
    let ghost ks = keys@.map_values(|x: String| x@);
    let mut sorted: Vec<String> = Vec::new();
    let mut i: usize = 0;
    while i < keys.len()
        invariant
            i <= keys.len(),
            ks == keys@.map_values(|x: String| x@),
            sorted@.map_values(|x: String| x@) == sort_by_key(ks.take(i as int), by_itself()),
        decreases keys.len() - i,
    {
        proof {
            assert(ks.take(i + 1).drop_last() =~= ks.take(i as int));
            assert(ks.take(i + 1).last() == keys@[i as int]@);
        }
        insert_key(&mut sorted, keys[i].clone());
        i += 1;
    }
    proof {
        assert(ks.take(keys.len() as int) =~= ks);
    }
    if sorted.len() > count {
        let start = sorted.len() - count;
        let mut out: Vec<String> = Vec::new();
        let mut j = start;
        while j < sorted.len()
            invariant
                start <= j <= sorted.len(),
                out@.map_values(|x: String| x@) == sorted@.map_values(|x: String| x@).subrange(start as int, j as int),
            decreases sorted.len() - j,
        {
            let ghost before = out@.map_values(|x: String| x@);
            let c = sorted[j].clone();
            assert(c@ == sorted@[j as int]@);
            out.push(c);
            proof {
                assert(out@.map_values(|x: String| x@) =~= before.push(c@));
                assert(out@.map_values(|x: String| x@) =~= sorted@.map_values(|x: String| x@).subrange(start as int, j + 1));
            }
            j += 1;
        }
        proof {
            assert(sorted@.map_values(|x: String| x@).subrange(start as int, sorted.len() as int) =~= sorted@.map_values(|x: String| x@).skip(start as int));
        }
        out
    } else {
        sorted
    }
}

/// The Unix time in seconds that chrono's `DateTime::parse_from_rfc3339`
/// reads from `s`, or `None` when it reports an error.
pub uninterp spec fn rfc3339_timestamp(s: Seq<char>) -> Option<i64>;

/// The Unix time in seconds (taken as UTC) that chrono's
/// `NaiveDateTime::parse_from_str` reads from `s` by `fmt`, or `None` when
/// it reports an error.
pub uninterp spec fn naive_timestamp(s: Seq<char>, fmt: Seq<char>) -> Option<i64>;

/// chrono's `DateTime::parse_from_rfc3339(s)`, its instant given as
/// `timestamp()`. The contract names the outcome `rfc3339_timestamp`.
#[verifier::external_body]
fn parse_rfc3339(s: &str) -> (r: Result<i64, chrono::format::ParseError>)
    ensures
        match r {
            Ok(t) => rfc3339_timestamp(s@) == Some(t),
            Err(_) => rfc3339_timestamp(s@) is None,
        },
{
    match chrono::DateTime::parse_from_rfc3339(s) {
        Ok(dt) => Ok(dt.timestamp()),
        Err(e) => Err(e),
    }
}

/// chrono's `NaiveDateTime::parse_from_str(s, fmt)`, its instant taken as
/// UTC (`and_utc().timestamp()`). The contract names the outcome
/// `naive_timestamp`.
#[verifier::external_body]
fn parse_naive(s: &str, fmt: &str) -> (r: Result<i64, chrono::format::ParseError>)
    ensures
        match r {
            Ok(t) => naive_timestamp(s@, fmt@) == Some(t),
            Err(_) => naive_timestamp(s@, fmt@) is None,
        },
{
    match chrono::NaiveDateTime::parse_from_str(s, fmt) {
        Ok(ndt) => Ok(ndt.and_utc().timestamp()),
        Err(e) => Err(e),
    }
}

/// The Unix time a scan timestamp stands for: RFC 3339 first, then
/// "YYYY-MM-DD HH:MM:SS", then "YYYY-MM-DDTHH:MM:SS", both taken as UTC.
pub open spec fn timestamp_of(s: Seq<char>) -> Option<i64> {
    match rfc3339_timestamp(s) {
        Some(t) => Some(t),
        None => match naive_timestamp(s, "%Y-%m-%d %H:%M:%S"@) {
            Some(t) => Some(t),
            None => naive_timestamp(s, "%Y-%m-%dT%H:%M:%S"@),
        },
    }
}

/// The Unix time a scan timestamp stands for (see `timestamp_of`).
pub fn timestamp_seconds(s: &str) -> (r: Option<i64>)
    ensures
        r == timestamp_of(s@),
{
    match parse_rfc3339(s) {
        Ok(t) => Some(t),
        Err(_) => match parse_naive(s, "%Y-%m-%d %H:%M:%S") {
            Ok(t) => Some(t),
            Err(_) => match parse_naive(s, "%Y-%m-%dT%H:%M:%S") {
                Ok(t) => Some(t),
                Err(_) => None,
            },
        },
    }
}

/// The whole seconds between two scan timestamps, when both read and they
/// differ.
pub open spec fn time_diff_of(ts1: Seq<char>, ts2: Seq<char>) -> Option<u64> {
    match (timestamp_of(ts1), timestamp_of(ts2)) {
        (Some(a), Some(b)) => {
            let d = if b >= a { b - a } else { a - b };
            if d > 0 {
                Some(d as u64)
            } else {
                None
            }
        },
        _ => None,
    }
}

/// The whole seconds between two scan timestamps (see `time_diff_of`);
/// the caller turns them into hours.
pub fn time_diff_seconds(ts1: &str, ts2: &str) -> (r: Option<u64>)
    ensures
        r == time_diff_of(ts1@, ts2@),
{
    let a = timestamp_seconds(ts1)?;
    let b = timestamp_seconds(ts2)?;
    let d: i128 = if b >= a { b as i128 - a as i128 } else { a as i128 - b as i128 };
    if d > 0 {
        Some(d as u64)
    } else {
        None
    }
}

} // verus!
