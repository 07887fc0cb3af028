//! Sounding helpers: SVG text, the GRIB2 level types that hold a vertical
//! profile, the sounding cache key and which sounding to fetch.
use vstd::prelude::*;
use crate::briefing::int_text;
use crate::text::{append, chars_of, decimal, decimal_padded, has_prefix, push_char, push_decimal, push_decimal_padded, str_eq};
use crate::timeseries::{day_before, gregorian_pred, valid_ymd};

verus! {

/// The SVG text for character `c`: markup characters become entities.
pub open spec fn escape_char(c: char) -> Seq<char> {
    if c == '&' {
        "&amp;"@
    } else if c == '<' {
        "&lt;"@
    } else if c == '>' {
        "&gt;"@
    } else if c == '"' {
        "&quot;"@
    } else {
        seq![c]
    }
}

/// `s` with each character replaced by its SVG text.
pub open spec fn svg_escaped(s: Seq<char>) -> Seq<char>
    decreases s.len(),
{
    if s.len() == 0 {
        Seq::empty()
    } else {
        svg_escaped(s.drop_last()) + escape_char(s.last())
    }
}

/// Escape `&`, `<`, `>` and `"` for use in SVG text.
pub fn svg_escape(s: &str) -> (r: String)
    ensures
        r@ == svg_escaped(s@),
{
    let v = chars_of(s);
    let mut out = String::new();
    let mut i: usize = 0;
    while i < v.len()
        invariant
            i <= v.len(),
            v@ == s@,
            out@ == svg_escaped(s@.take(i as int)),
        decreases v.len() - i,
    {
        proof {
            assert(s@.take(i + 1).drop_last() =~= s@.take(i as int));
            assert(s@.take(i + 1).last() == v@[i as int]);
        }
        let c = v[i];
        if c == '&' {
            append(&mut out, "&amp;");
        } else if c == '<' {
            append(&mut out, "&lt;");
        } else if c == '>' {
            append(&mut out, "&gt;");
        } else if c == '"' {
            append(&mut out, "&quot;");
        } else {
            push_char(&mut out, c);
            assert(out@ =~= svg_escaped(s@.take(i as int)) + seq![c]);
        }
        i += 1;
    }
    assert(s@.take(v.len() as int) =~= s@);
    out
}

/// GRIB2 level types whose messages form a vertical profile: isobaric
/// surfaces (100) and hybrid levels (105).
pub fn is_pressure_level(level_type: u8) -> (r: bool)
    ensures
        r == (level_type == 100 || level_type == 105),
{
    match level_type {
        100 => true,
        105 => true,
        _ => false,
    }
}

} // verus!

verus! {

/// The SVG `polyline` element for the given point list, stroke, width and
/// extra attributes.
pub open spec fn polyline_text(points: Seq<char>, stroke: Seq<char>, width: Seq<char>, extra: Seq<char>) -> Seq<char> {
    "<polyline points=\""@ + points + "\" fill=\"none\" stroke=\""@ + stroke + "\" stroke-width=\""@
        + width + "\" "@ + extra + "/>"@
}

/// The SVG `polyline` element for the given point list, stroke, width and
/// extra attributes.
pub fn svg_polyline(points: &str, stroke: &str, width: &str, extra: &str) -> (r: String)
    ensures
        r@ == polyline_text(points@, stroke@, width@, extra@),
{
    let mut s = String::new();
    append(&mut s, "<polyline points=\"");
    append(&mut s, points);
    append(&mut s, "\" fill=\"none\" stroke=\"");
    append(&mut s, stroke);
    append(&mut s, "\" stroke-width=\"");
    append(&mut s, width);
    append(&mut s, "\" ");
    append(&mut s, extra);
    append(&mut s, "/>");
    s
}

/// The cache key of a station's sounding on a date ("YYYYMMDD") for an
/// hour; 99 stands for "no hour asked for".
pub open spec fn cache_key_text(station: Seq<char>, date: Seq<char>, hour: Option<u32>) -> Seq<char> {
    station + ":"@ + date + ":"@ + decimal(
        match hour {
            Some(h) => h as nat,
            None => 99nat,
        },
    )
}

/// The cache key of a station's sounding on a date for an hour.
pub fn sounding_cache_key(station: &str, date: &str, hour: Option<u32>) -> (r: String)
    ensures
        r@ == cache_key_text(station@, date@, hour),
{
    let mut s = String::new();
    append(&mut s, station);
    append(&mut s, ":");
    append(&mut s, date);
    append(&mut s, ":");
    let h: u32 = match hour {
        Some(h) => h,
        None => 99,
    };
    push_decimal(&mut s, h as u64);
    s
}

/// Which sounding to fetch.
#[derive(Clone, Copy, Debug, PartialEq, Eq, Structural)]
pub enum SoundingFetch {
    /// The most recent 00Z sounding.
    Latest00z,
    /// The most recent 12Z sounding.
    Latest12z,
    /// Today's sounding at the given hour.
    AtHour(u32),
}

/// The sounding to fetch for a requested hour, given the current UTC hour:
/// 00Z and 12Z requests take the latest of those; another hour is fetched
/// for today; with no hour, the 12Z sounding from 15Z on, the 00Z one from
/// 03Z, and the previous 12Z one before that.
pub open spec fn fetch_for(hour: Option<u32>, hour_utc: u32) -> SoundingFetch {
    match hour {
        Some(h) => if h == 0 {
            SoundingFetch::Latest00z
        } else if h == 12 {
            SoundingFetch::Latest12z
        } else {
            SoundingFetch::AtHour(h)
        },
        None => if hour_utc >= 15 {
            SoundingFetch::Latest12z
        } else if hour_utc >= 3 {
            SoundingFetch::Latest00z
        } else {
            SoundingFetch::Latest12z
        },
    }
}

/// The sounding to fetch for a requested hour (see `fetch_for`).
pub fn choose_sounding_fetch(hour: Option<u32>, hour_utc: u32) -> (r: SoundingFetch)
    ensures
        r == fetch_for(hour, hour_utc),
{
    match hour {
        Some(0) => SoundingFetch::Latest00z,
        Some(12) => SoundingFetch::Latest12z,
        Some(h) => SoundingFetch::AtHour(h),
        None => if hour_utc >= 15 {
            SoundingFetch::Latest12z
        } else if hour_utc >= 3 {
            SoundingFetch::Latest00z
        } else {
            SoundingFetch::Latest12z
        },
    }
}

} // verus!

verus! {

/// Escaped text holds no '<', '>' or '"' character.
pub proof fn law_escaped_has_no_markup(s: Seq<char>)
    ensures
        forall|i: int|
            0 <= i < svg_escaped(s).len() ==> #[trigger] svg_escaped(s)[i] != '<' && svg_escaped(s)[i]
                != '>' && svg_escaped(s)[i] != '"',
    decreases s.len(),
{
    reveal_strlit("&amp;");
    reveal_strlit("&lt;");
    reveal_strlit("&gt;");
    reveal_strlit("&quot;");
    if s.len() > 0 {
        law_escaped_has_no_markup(s.drop_last());
        let a = svg_escaped(s.drop_last());
        let b = escape_char(s.last());
        assert forall|i: int| 0 <= i < (a + b).len() implies #[trigger] (a + b)[i] != '<' && (a + b)[i]
            != '>' && (a + b)[i] != '"' by {
            if i >= a.len() {
                assert((a + b)[i] == b[i - a.len()]);
            } else {
                assert((a + b)[i] == a[i]);
            }
        }
    }
}

/// The sounding a `raob` request's hour names: "00", "00z", "00Z" or "0"
/// the latest 00Z one; "12", "12z", "12Z" and anything else the latest 12Z.
pub open spec fn raob_fetch_for(hour: Seq<char>) -> SoundingFetch {
    if hour == "00"@ || hour == "00z"@ || hour == "00Z"@ || hour == "0"@ {
        SoundingFetch::Latest00z
    } else {
        SoundingFetch::Latest12z
    }
}

/// The sounding a `raob` request's hour names (see `raob_fetch_for`).
pub fn raob_fetch(hour: &str) -> (r: SoundingFetch)
    ensures
        r == raob_fetch_for(hour@),
{
    if str_eq(hour, "00") || str_eq(hour, "00z") || str_eq(hour, "00Z") || str_eq(hour, "0") {
        SoundingFetch::Latest00z
    } else {
        SoundingFetch::Latest12z
    }
}

/// `s` with every occurrence of `pat` replaced by `rep`, scanning from the
/// left without overlaps (std's `str::replace`, for a non-empty `pat`).
pub open spec fn replace_text(s: Seq<char>, pat: Seq<char>, rep: Seq<char>) -> Seq<char>
    decreases s.len(),
{
    if s.len() == 0 || pat.len() == 0 {
        s
    } else if has_prefix(s, pat) {
        rep + replace_text(s.skip(pat.len() as int), pat, rep)
    } else {
        seq![s[0]] + replace_text(s.drop_first(), pat, rep)
    }
}

/// SVG text decoded: the entities `&quot;`, `&gt;`, `&lt;` and `&amp;`
/// turned back into characters, in that order.
pub open spec fn svg_unescaped(t: Seq<char>) -> Seq<char> {
    replace_text(
        replace_text(replace_text(replace_text(t, "&quot;"@, "\""@), "&gt;"@, ">"@), "&lt;"@, "<"@),
        "&amp;"@,
        "&"@,
    )
}

/// The entity decoded in step `k` of `svg_unescaped`.
spec fn entity_of(k: nat) -> Seq<char> {
    if k == 0 {
        "&quot;"@
    } else if k == 1 {
        "&gt;"@
    } else if k == 2 {
        "&lt;"@
    } else {
        "&amp;"@
    }
}

/// The character that entity stands for.
spec fn char_of(k: nat) -> char {
    if k == 0 {
        '"'
    } else if k == 1 {
        '>'
    } else if k == 2 {
        '<'
    } else {
        '&'
    }
}

/// The text of `c` after `k` decoding steps.
spec fn stage_piece(c: char, k: nat) -> Seq<char> {
    if (c == '"' && k >= 1) || (c == '>' && k >= 2) || (c == '<' && k >= 3) || (c == '&' && k >= 4) {
        seq![c]
    } else {
        escape_char(c)
    }
}

/// The escaped text of `s` after `k` decoding steps.
spec fn stage(s: Seq<char>, k: nat) -> Seq<char>
    decreases s.len(),
{
    if s.len() == 0 {
        Seq::empty()
    } else {
        stage_piece(s[0], k) + stage(s.drop_first(), k)
    }
}

proof fn lemma_stage_concat(a: Seq<char>, b: Seq<char>, k: nat)
    ensures
        stage(a + b, k) == stage(a, k) + stage(b, k),
    decreases a.len(),
{
    if a.len() == 0 {
        assert(a + b =~= b);
    } else {
        assert((a + b).drop_first() =~= a.drop_first() + b);
        lemma_stage_concat(a.drop_first(), b, k);
        assert((a + b)[0] == a[0]);
        assert(stage_piece(a[0], k) + (stage(a.drop_first(), k) + stage(b, k)) =~= stage(a, k) + stage(b, k));
    }
}

proof fn lemma_stage_escaped(s: Seq<char>)
    ensures
        stage(s, 0) == svg_escaped(s),
    decreases s.len(),
{
    if s.len() > 0 {
        lemma_stage_escaped(s.drop_last());
        assert(s =~= s.drop_last() + seq![s.last()]);
        lemma_stage_concat(s.drop_last(), seq![s.last()], 0);
        let t = seq![s.last()];
        assert(t.drop_first() =~= Seq::<char>::empty());
        assert(t[0] == s.last());
        assert(stage(t.drop_first(), 0) == Seq::<char>::empty());
        assert(stage_piece(s.last(), 0) == escape_char(s.last()));
        assert(stage(t, 0) =~= escape_char(s.last()));
    }
}

proof fn lemma_stage_done(s: Seq<char>)
    ensures
        stage(s, 4) == s,
    decreases s.len(),
{
    if s.len() > 0 {
        lemma_stage_done(s.drop_first());
        assert(stage_piece(s[0], 4) =~= seq![s[0]]);
        assert(seq![s[0]] + s.drop_first() =~= s);
    }
}

/// Text without '&' passes a decoding step unchanged.
proof fn lemma_replace_plain(x: Seq<char>, y: Seq<char>, pat: Seq<char>, rep: Seq<char>)
    requires
        pat.len() > 0,
        pat[0] == '&',
        forall|i: int| 0 <= i < x.len() ==> x[i] != '&',
    ensures
        replace_text(x + y, pat, rep) == x + replace_text(y, pat, rep),
    decreases x.len(),
{
    if x.len() == 0 {
        assert(x + y =~= y);
        assert(x + replace_text(y, pat, rep) =~= replace_text(y, pat, rep));
    } else {
        let s = x + y;
        assert(s[0] == x[0]);
        assert(!has_prefix(s, pat)) by {
            if has_prefix(s, pat) {
                assert(s.subrange(0, pat.len() as int)[0] == pat[0]);
            }
        }
        assert(s.drop_first() =~= x.drop_first() + y);
        lemma_replace_plain(x.drop_first(), y, pat, rep);
        assert(seq![x[0]] + (x.drop_first() + replace_text(y, pat, rep)) =~= x + replace_text(y, pat, rep));
    }
}

/// An entity other than `pat` passes a decoding step unchanged.
proof fn lemma_replace_other(x: Seq<char>, y: Seq<char>, pat: Seq<char>, rep: Seq<char>)
    requires
        pat.len() >= 2,
        x.len() >= 2,
        pat[0] == '&',
        x[0] == '&',
        x[1] != pat[1],
        forall|i: int| 1 <= i < x.len() ==> x[i] != '&',
    ensures
        replace_text(x + y, pat, rep) == x + replace_text(y, pat, rep),
{
    let s = x + y;
    assert(s[1] == x[1]);
    assert(!has_prefix(s, pat)) by {
        if has_prefix(s, pat) {
            assert(s.subrange(0, pat.len() as int)[1] == pat[1]);
        }
    }
    assert(s.drop_first() =~= x.drop_first() + y);
    lemma_replace_plain(x.drop_first(), y, pat, rep);
    assert(seq![x[0]] + (x.drop_first() + replace_text(y, pat, rep)) =~= x + replace_text(y, pat, rep));
}

/// The entity itself is decoded.
proof fn lemma_replace_match(y: Seq<char>, pat: Seq<char>, rep: Seq<char>)
    requires
        pat.len() > 0,
    ensures
        replace_text(pat + y, pat, rep) == rep + replace_text(y, pat, rep),
{
    let s = pat + y;
    assert(s.subrange(0, pat.len() as int) =~= pat);
    assert(s.skip(pat.len() as int) =~= y);
}

/// Decoding step `k` turns the text after `k` steps into the text after
/// `k + 1`.
proof fn lemma_stage_step(s: Seq<char>, k: nat)
    requires
        k < 4,
    ensures
        replace_text(stage(s, k), entity_of(k), seq![char_of(k)]) == stage(s, k + 1),
    decreases s.len(),
{
    reveal_strlit("&amp;");
    reveal_strlit("&lt;");
    reveal_strlit("&gt;");
    reveal_strlit("&quot;");
    let pat = entity_of(k);
    let rep = seq![char_of(k)];
    if s.len() == 0 {
    } else {
        let c = s[0];
        let x = stage_piece(c, k);
        let y = stage(s.drop_first(), k);
        lemma_stage_step(s.drop_first(), k);
        if (c == '"' && k == 0) || (c == '>' && k == 1) || (c == '<' && k == 2) || (c == '&' && k == 3) {
            assert(x == pat);
            lemma_replace_match(y, pat, rep);
            assert(stage_piece(c, k + 1) == rep);
        } else if c == '&' || c == '<' || c == '>' || c == '"' {
            if x.len() == 1 {
                lemma_replace_plain(x, y, pat, rep);
            } else {
                assert(x.len() >= 4);
                assert forall|i: int| 1 <= i < x.len() implies x[i] != '&' by {}
                lemma_replace_other(x, y, pat, rep);
            }
            assert(stage_piece(c, k + 1) == x);
        } else {
            assert(x == seq![c]);
            lemma_replace_plain(x, y, pat, rep);
            assert(stage_piece(c, k + 1) == x);
        }
    }
}

/// Decoding the SVG text of `s` gives `s` back.
pub proof fn law_unescape_escaped(s: Seq<char>)
    ensures
        svg_unescaped(svg_escaped(s)) == s,
{
    reveal_strlit("\"");
    reveal_strlit(">");
    reveal_strlit("<");
    reveal_strlit("&");
    lemma_stage_escaped(s);
    lemma_stage_step(s, 0);
    lemma_stage_step(s, 1);
    lemma_stage_step(s, 2);
    lemma_stage_step(s, 3);
    assert(entity_of(0) == "&quot;"@);
    assert(entity_of(1) == "&gt;"@);
    assert(entity_of(2) == "&lt;"@);
    assert(entity_of(3) == "&amp;"@);
    assert("\""@ =~= seq![char_of(0)]);
    assert(">"@ =~= seq![char_of(1)]);
    assert("<"@ =~= seq![char_of(2)]);
    assert("&"@ =~= seq![char_of(3)]);
    lemma_stage_done(s);
}

/// The day and cycle hour of the sounding a fetch names, given today's
/// date and the current UTC hour: the latest 12Z sounding is yesterday's
/// before 12Z, the latest 00Z one is yesterday's before 03Z, and a given
/// hour is today's. `None` only when there is no day before today.
pub open spec fn sounding_day_of(today: (i32, u32, u32), hour_utc: u32, fetch: SoundingFetch) -> Option<
    ((i32, u32, u32), u32),
> {
    let (back, cycle) = match fetch {
        SoundingFetch::Latest12z => (hour_utc < 12, 12u32),
        SoundingFetch::Latest00z => (hour_utc < 3, 0u32),
        SoundingFetch::AtHour(h) => (false, h),
    };
    if back {
        match gregorian_pred(today) {
            Some(d) => Some((d, cycle)),
            None => None,
        }
    } else {
        Some((today, cycle))
    }
}

/// The day and cycle hour of the sounding a fetch names (see
/// `sounding_day_of`).
pub fn sounding_day(today: (i32, u32, u32), hour_utc: u32, fetch: SoundingFetch) -> (r: Option<((i32, u32, u32), u32)>)
    requires
        valid_ymd(today),
    ensures
        r == sounding_day_of(today, hour_utc, fetch),
{
    let (back, cycle): (bool, u32) = match fetch {
        SoundingFetch::Latest12z => (hour_utc < 12, 12),
        SoundingFetch::Latest00z => (hour_utc < 3, 0),
        SoundingFetch::AtHour(h) => (false, h),
    };
    if back {
        match day_before(today) {
            Some(d) => Some((d, cycle)),
            None => None,
        }
    } else {
        Some((today, cycle))
    }
}

/// The Wyoming archive address of the sounding of station `id` on `day` at
/// `hour` UTC: date "Y-MM-DD", time "HH:00:00".
pub open spec fn sounding_url_of(id: Seq<char>, day: (i32, u32, u32), hour: u32) -> Seq<char> {
    "https://weather.uwyo.edu/wsgi/sounding?datetime="@ + int_text(day.0 as int) + "-"@ + decimal_padded(
        day.1 as nat,
        2,
    ) + "-"@ + decimal_padded(day.2 as nat, 2) + "+"@ + decimal_padded(hour as nat, 2) + "%3A00%3A00&id="@ + id
        + "&src=UNKNOWN&type=TEXT%3ALIST"@
}

/// The Wyoming archive address of a sounding (see `sounding_url_of`).
pub fn sounding_url(id: &str, day: (i32, u32, u32), hour: u32) -> (r: String)
    ensures
        r@ == sounding_url_of(id@, day, hour),
{
    let mut u = String::new();
    assert(u@ =~= Seq::<char>::empty());
    append(&mut u, "https://weather.uwyo.edu/wsgi/sounding?datetime=");
    if day.0 < 0 {
        append(&mut u, "-");
        push_decimal(&mut u, (0 - (day.0 as i64)) as u64);
    } else {
        push_decimal(&mut u, day.0 as u64);
    }
    append(&mut u, "-");
    push_decimal_padded(&mut u, day.1 as u64, 2);
    append(&mut u, "-");
    push_decimal_padded(&mut u, day.2 as u64, 2);
    append(&mut u, "+");
    push_decimal_padded(&mut u, hour as u64, 2);
    append(&mut u, "%3A00%3A00&id=");
    append(&mut u, id);
    append(&mut u, "&src=UNKNOWN&type=TEXT%3ALIST");
    u
}

} // verus!
