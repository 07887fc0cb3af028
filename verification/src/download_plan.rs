//! Planning a batch model download: the forecast hours a request names,
//! and for each hour the HRRR file's address on NOMADS and the local file
//! name it is saved under.
use vstd::prelude::*;
use crate::text::{
    append, chars_of, decimal_padded, owned, parse_u32, push_decimal_padded, split_by, split_on,
    str_eq, string_from_chars, string_from_range, to_upper, trim_space, trim_str, u32_text, unicode_upper,
};

verus! {

/// The number `t` spells, or 0.
pub open spec fn number_or_zero(t: Seq<char>) -> u32 {
    match u32_text(t) {
        Some(n) => n,
        None => 0,
    }
}

/// The hours `a` to `b` inclusive (none when `b < a`).
pub open spec fn hour_span(a: u32, b: u32) -> Seq<u32> {
    Seq::new(if b >= a { (b - a + 1) as nat } else { 0 }, |i: int| (a + i) as u32)
}

/// The hours of a comma-separated list: each trimmed item that is a
/// number, in order; others are skipped.
pub open spec fn listed_hours(items: Seq<Seq<char>>) -> Seq<u32>
    decreases items.len(),
{
    if items.len() == 0 {
        Seq::empty()
    } else {
        let r = listed_hours(items.drop_last());
        match u32_text(trim_space(items.last())) {
            Some(n) => r.push(n),
            None => r,
        }
    }
}

/// The forecast hours a request names: "a-b" for a span (each end 0 when
/// not a number; more than one '-' gives hour 0 alone), else a comma list.
pub open spec fn forecast_hours(f: Seq<char>) -> Seq<u32> {
    let dashes = split_on(f, '-');
    if dashes.len() > 1 {
        if dashes.len() == 2 {
            hour_span(number_or_zero(trim_space(dashes[0])), number_or_zero(trim_space(dashes[1])))
        } else {
            seq![0u32]
        }
    } else {
        listed_hours(split_on(f, ','))
    }
}

/// The forecast hours a request names (see `forecast_hours`).
pub fn parse_forecast_hours(fhours: &str) -> (r: Vec<u32>)
    ensures
        r@ == forecast_hours(fhours@),
{
    let dashes = split_by(fhours, '-');
    if dashes.len() > 1 {
        if dashes.len() == 2 {
            let a: u32 = match parse_u32(trim_str(dashes[0].as_str()).as_str()) {
                Some(n) => n,
                None => 0,
            };
            let b: u32 = match parse_u32(trim_str(dashes[1].as_str()).as_str()) {
                Some(n) => n,
                None => 0,
            };
            let mut out: Vec<u32> = Vec::new();
            if b >= a {
                let mut h: u64 = a as u64;
                while h <= b as u64
                    invariant
                        a <= b,
                        a as u64 <= h <= b as u64 + 1,
                        out@ == hour_span(a, b).take(h - a),
                    decreases b as u64 + 1 - h,
                {
                    proof {
                        assert(hour_span(a, b).take(h + 1 - a) =~= hour_span(a, b).take(h - a).push(h as u32));
                    }
                    out.push(h as u32);
                    h += 1;
                }
                assert(hour_span(a, b).take(b + 1 - a) =~= hour_span(a, b));
            } else {
                assert(out@ =~= hour_span(a, b));
            }
            out
        } else {
            let mut out: Vec<u32> = Vec::new();
            out.push(0);
            assert(out@ =~= seq![0u32]);
            out
        }
    } else {
        let items = split_by(fhours, ',');
        let ghost its = split_on(fhours@, ',');
        assert(items@.map_values(|s: String| s@) =~= its);
        let mut out: Vec<u32> = Vec::new();
        let mut i: usize = 0;
        while i < items.len()
            invariant
                i <= items@.len(),
                its == items@.map_values(|s: String| s@),
                out@ == listed_hours(its.take(i as int)),
            decreases items@.len() - i,
        {
            proof {
                assert(its.take(i + 1).drop_last() =~= its.take(i as int));
                assert(its.take(i + 1).last() == its[i as int]);
            }
            match parse_u32(trim_str(items[i].as_str()).as_str()) {
                Some(n) => out.push(n),
                None => {},
            }
            i += 1;
        }
        assert(its.take(its.len() as int) =~= its);
        out
    }
}

/// `s` with every `from` replaced by `to`.
pub open spec fn replace_char(s: Seq<char>, from: char, to: Seq<char>) -> Seq<char>
    decreases s.len(),
{
    if s.len() == 0 {
        Seq::empty()
    } else {
        replace_char(s.drop_last(), from, to) + if s.last() == from {
            to
        } else {
            seq![s.last()]
        }
    }
}

/// `s` with every `from` replaced by `to` (see `replace_char`).
pub fn replace_all(s: &str, from: char, to: &str) -> (r: String)
    ensures
        r@ == replace_char(s@, from, to@),
{
    let v = chars_of(s);
    let mut out = String::new();
    assert(out@ =~= replace_char(s@.take(0), from, to@));
    let mut i: usize = 0;
    while i < v.len()
        invariant
            i <= v@.len(),
            v@ == s@,
            out@ == replace_char(s@.take(i as int), from, to@),
        decreases v@.len() - i,
    {
        proof {
            assert(s@.take(i + 1).drop_last() =~= s@.take(i as int));
            assert(s@.take(i + 1).last() == s@[i as int]);
        }
        if v[i] == from {
            append(&mut out, to);
        } else {
            let mut one: Vec<char> = Vec::new();
            one.push(v[i]);
            append(&mut out, string_from_chars(&one).as_str());
            assert(one@ =~= seq![s@[i as int]]);
        }
        i += 1;
    }
    assert(s@.take(s@.len() as int) =~= s@);
    out
}

/// The bytes `c` takes in UTF-8.
pub open spec fn utf8_len(c: char) -> int {
    if (c as u32) < 0x80 {
        1
    } else if (c as u32) < 0x800 {
        2
    } else if (c as u32) < 0x10000 {
        3
    } else {
        4
    }
}

/// The leading characters of `s` that take exactly `n` bytes in UTF-8, if
/// `n` falls on a character boundary within `s` (std's `str::get(..n)`).
pub open spec fn byte_prefix(s: Seq<char>, n: int) -> Option<Seq<char>>
    decreases s.len(),
{
    if n == 0 {
        Some(Seq::empty())
    } else if s.len() == 0 || utf8_len(s[0]) > n {
        None
    } else {
        match byte_prefix(s.drop_first(), n - utf8_len(s[0])) {
            Some(p) => Some(seq![s[0]] + p),
            None => None,
        }
    }
}

/// The UTF-8 length of `c`.
fn char_bytes(c: char) -> (r: usize)
    ensures
        r == utf8_len(c),
{
    let u = c as u32;
    if u < 0x80 {
        1
    } else if u < 0x800 {
        2
    } else if u < 0x10000 {
        3
    } else {
        4
    }
}

/// `byte_prefix` of `s` from character `i`, knowing the bytes before it.
proof fn lemma_byte_prefix_step(s: Seq<char>, i: int, n: int)
    requires
        0 <= i < s.len(),
        0 < n,
        utf8_len(s[i]) <= n,
    ensures
        byte_prefix(s.skip(i), n) == match byte_prefix(s.skip(i + 1), n - utf8_len(s[i])) {
            Some(p) => Some(seq![s[i]] + p),
            None => None::<Seq<char>>,
        },
{
    assert(s.skip(i).drop_first() =~= s.skip(i + 1));
    assert(s.skip(i)[0] == s[i]);
}

/// The leading characters of `s` that take exactly `n` bytes (see
/// `byte_prefix`).
pub fn first_bytes(s: &str, n: usize) -> (r: Option<String>)
    ensures
        match r {
            Some(p) => byte_prefix(s@, n as int) == Some(p@),
            None => byte_prefix(s@, n as int) is None,
        },
{
    let v = chars_of(s);
    let mut used: usize = 0;
    let mut i: usize = 0;
    proof {
        assert(s@.skip(0) =~= s@);
        assert(s@.take(0) =~= Seq::<char>::empty());
        assert forall|p: Seq<char>| #![auto] s@.take(0) + p =~= p by {}
    }
    while i < v.len() && used < n
        invariant
            i <= v@.len(),
            v@ == s@,
            used <= n,
            used < n ==> byte_prefix(s@, n as int) == match byte_prefix(s@.skip(i as int), n - used) {
                Some(p) => Some(s@.take(i as int) + p),
                None => None::<Seq<char>>,
            },
            used == n ==> byte_prefix(s@, n as int) == Some(s@.take(i as int)),
        decreases v@.len() - i,
    {
        let b = char_bytes(v[i]);
        if b > n - used {
            proof {
                assert(s@.skip(i as int)[0] == s@[i as int]);
            }
            return None;
        }
        proof {
            lemma_byte_prefix_step(s@, i as int, (n - used) as int);
            assert(s@.take(i + 1) =~= s@.take(i as int) + seq![s@[i as int]]);
            if used + b == n {
                assert(byte_prefix(s@.skip(i + 1), 0) == Some(Seq::<char>::empty()));
                assert(s@.take(i + 1) + Seq::<char>::empty() =~= s@.take(i + 1));
            }
            assert forall|p: Seq<char>| #![auto] s@.take(i as int) + (seq![s@[i as int]] + p) =~= s@.take(i + 1) + p by {}
        }
        used = used + b;
        i += 1;
    }
    if used < n {
        proof {
            assert(s@.skip(i as int).len() == 0);
        }
        None
    } else {
        Some(string_from_range(&v, 0, i))
    }
}

/// The ASCII digits that end `s`.
pub open spec fn trailing_digits(s: Seq<char>) -> Seq<char>
    decreases s.len(),
{
    if s.len() > 0 && '0' <= s.last() && s.last() <= '9' {
        trailing_digits(s.drop_last()).push(s.last())
    } else {
        Seq::empty()
    }
}

/// The number of ASCII digits that end `s`.
pub open spec fn trailing_digit_count(s: Seq<char>) -> nat
    decreases s.len(),
{
    if s.len() > 0 && '0' <= s.last() && s.last() <= '9' {
        1 + trailing_digit_count(s.drop_last())
    } else {
        0
    }
}

proof fn lemma_trailing_digits(s: Seq<char>)
    ensures
        trailing_digit_count(s) <= s.len(),
        trailing_digits(s) == s.skip(s.len() - trailing_digit_count(s)),
    decreases s.len(),
{
    if s.len() > 0 && '0' <= s.last() && s.last() <= '9' {
        lemma_trailing_digits(s.drop_last());
        assert(s.drop_last().skip(s.len() - 1 - trailing_digit_count(s.drop_last())).push(s.last()) =~= s.skip(
            s.len() - trailing_digit_count(s),
        ));
    } else {
        assert(s.skip(s.len() as int) =~= Seq::<char>::empty());
    }
}

/// The NOMADS address of the HRRR pressure-level file for run `run`
/// ("YYYYMMDD/HHz") and forecast hour `fhr`: the date is the first eight
/// bytes of the run without '/' and 'z' (a fixed date when it has fewer),
/// the cycle the digits that end the run.
pub open spec fn hrrr_url_of(run: Seq<char>, fhr: u32) -> Seq<char> {
    let date = match byte_prefix(replace_char(replace_char(run, '/', Seq::empty()), 'z', Seq::empty()), 8) {
        Some(d) => d,
        None => "20250101"@,
    };
    "https://nomads.ncep.noaa.gov/pub/data/nccf/com/hrrr/prod/hrrr."@ + date + "/conus/hrrr.t"@
        + trailing_digits(run) + "z.wrfprsf"@ + decimal_padded(fhr as nat, 2) + ".grib2"@
}

/// The NOMADS address of an HRRR file (see `hrrr_url_of`).
pub fn hrrr_url(run: &str, fhr: u32) -> (r: String)
    ensures
        r@ == hrrr_url_of(run@, fhr),
{
    let plain = replace_all(replace_all(run, '/', "").as_str(), 'z', "");
    proof {
        reveal_strlit("");
    }
    let date = match first_bytes(plain.as_str(), 8) {
        Some(d) => d,
        None => owned("20250101"),
    };
    let v = chars_of(run);
    let mut k: usize = v.len();
    proof {
        assert(run@.take(v@.len() as int) =~= run@);
        assert(run@.skip(v@.len() as int) =~= Seq::<char>::empty());
        assert(trailing_digits(run@) + Seq::<char>::empty() =~= trailing_digits(run@));
    }
    while k > 0 && '0' <= v[k - 1] && v[k - 1] <= '9'
        invariant
            k <= v@.len(),
            v@ == run@,
            trailing_digits(run@) == trailing_digits(run@.take(k as int)) + run@.skip(k as int),
        decreases k,
    {
        proof {
            let t = run@.take(k as int);
            assert(t.drop_last() =~= run@.take(k - 1));
            assert(t.last() == run@[k - 1]);
            assert(run@.skip(k - 1) =~= seq![run@[k - 1]] + run@.skip(k as int));
        }
        k -= 1;
    }
    proof {
        assert(trailing_digits(run@.take(k as int)) == Seq::<char>::empty());
        assert(Seq::<char>::empty() + run@.skip(k as int) =~= run@.skip(k as int));
        assert(run@.skip(k as int) =~= run@.subrange(k as int, v@.len() as int));
    }
    let cycle = string_from_range(&v, k, v.len());
    let mut url = owned("https://nomads.ncep.noaa.gov/pub/data/nccf/com/hrrr/prod/hrrr.");
    append(&mut url, date.as_str());
    append(&mut url, "/conus/hrrr.t");
    append(&mut url, cycle.as_str());
    append(&mut url, "z.wrfprsf");
    push_decimal_padded(&mut url, fhr as u64, 2);
    append(&mut url, ".grib2");
    assert(""@ =~= Seq::<char>::empty());
    assert(plain@ == replace_char(replace_char(run@, '/', Seq::empty()), 'z', Seq::empty()));
    assert(cycle@ == trailing_digits(run@));
    url
}

/// The local file name of forecast hour `fhr` of `model`'s run `run`:
/// '/' and ' ' in the run become '_'.
pub open spec fn download_file_name_of(model: Seq<char>, run: Seq<char>, fhr: u32) -> Seq<char> {
    model + "_"@ + replace_char(replace_char(run, '/', "_"@), ' ', "_"@) + "_f"@ + decimal_padded(fhr as nat, 3)
        + ".grib2"@
}

/// The local file name of one downloaded hour (see
/// `download_file_name_of`).
pub fn download_file_name(model: &str, run: &str, fhr: u32) -> (r: String)
    ensures
        r@ == download_file_name_of(model@, run@, fhr),
{
    let mut name = owned(model);
    append(&mut name, "_");
    append(&mut name, replace_all(replace_all(run, '/', "_").as_str(), ' ', "_").as_str());
    append(&mut name, "_f");
    push_decimal_padded(&mut name, fhr as u64, 3);
    append(&mut name, ".grib2");
    name
}

/// The first status line of a batch download.
pub open spec fn start_message_of(model: Seq<char>, run: Seq<char>, fhours: Seq<char>) -> Seq<char> {
    "Starting "@ + unicode_upper(model) + " download: run="@ + run + ", fhours="@ + fhours
}

/// The first status line of a batch download (see `start_message_of`).
pub fn start_message(model: &str, run: &str, fhours: &str) -> (r: String)
    ensures
        r@ == start_message_of(model@, run@, fhours@),
{
    let mut m = owned("Starting ");
    append(&mut m, to_upper(model).as_str());
    append(&mut m, " download: run=");
    append(&mut m, run);
    append(&mut m, ", fhours=");
    append(&mut m, fhours);
    m
}

/// The progress line before forecast hour `fhr` is fetched.
pub open spec fn hour_message_of(fhr: u32) -> Seq<char> {
    "Downloading F"@ + decimal_padded(fhr as nat, 3) + "..."@
}

/// The progress line before an hour is fetched (see `hour_message_of`).
pub fn hour_message(fhr: u32) -> (r: String)
    ensures
        r@ == hour_message_of(fhr),
{
    let mut m = owned("Downloading F");
    push_decimal_padded(&mut m, fhr as u64, 3);
    append(&mut m, "...");
    m
}

/// Whether file addresses can be built for `model`: only HRRR's are; the
/// hours of other models are skipped with `skipped_model_message`.
pub fn has_url_builder(model: &str) -> (r: bool)
    ensures
        r == (model@ == "hrrr"@),
{
    str_eq(model, "hrrr")
}

/// The progress line for an hour of a model without an address builder.
pub open spec fn skipped_model_message_of(model: Seq<char>) -> Seq<char> {
    "Model '"@ + model + "' URL builder not yet implemented, using HRRR fallback"@
}

/// The progress line for a skipped hour (see `skipped_model_message_of`).
pub fn skipped_model_message(model: &str) -> (r: String)
    ensures
        r@ == skipped_model_message_of(model@),
{
    let mut m = owned("Model '");
    append(&mut m, model);
    append(&mut m, "' URL builder not yet implemented, using HRRR fallback");
    m
}

} // verus!
