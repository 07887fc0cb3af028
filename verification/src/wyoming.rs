//! Upper-air soundings from the University of Wyoming archive: the text
//! block of the HTML response, its station header and the rows of its data
//! table.
use vstd::prelude::*;
use crate::text::{
    ascii_lower, chars_of, contains_seq, find_folded, find_folded_from, has_prefix,
    lemma_find_folded, owned, split_by, split_on, split_whitespace, str_contains,
    str_eq, str_starts_with, string_from_range, trim_space, trim_str, unicode_upper, words,
};
use crate::raob_stations::{find_raob_station, raob_entry, RaobStation, RAOB_STATIONS};

verus! {

/// The text between the first `<pre>` tag of `html` and the first `</pre>`
/// after it, tags matched without regard to ASCII case; or the message for
/// the tag that is missing.
pub open spec fn pre_block(html: Seq<char>) -> Result<Seq<char>, Seq<char>> {
    match find_folded(html, "<pre>"@, 0) {
        None => Err("No <pre> block found in Wyoming response"@),
        Some(s) => match find_folded(html, "</pre>"@, s) {
            None => Err("No closing </pre> found"@),
            Some(e) => Ok(html.subrange(s + 5, e)),
        },
    }
}

/// The content of the `<pre>` block of a Wyoming response.
pub fn extract_pre_block(html: &str) -> (r: Result<String, String>)
    ensures
        match r {
            Ok(c) => pre_block(html@) == Ok::<Seq<char>, Seq<char>>(c@),
            Err(e) => pre_block(html@) == Err::<Seq<char>, Seq<char>>(e@),
        },
{
    let h = chars_of(html);
    let open = chars_of("<pre>");
    let close = chars_of("</pre>");
    proof {
        reveal_strlit("<pre>");
        reveal_strlit("</pre>");
    }
    let start = match find_folded_from(&h, &open, 0) {
        Some(s) => s,
        None => return Err(owned("No <pre> block found in Wyoming response")),
    };
    let end = match find_folded_from(&h, &close, start) {
        Some(e) => e,
        None => return Err(owned("No closing </pre> found")),
    };
    proof {
        lemma_find_folded(html@, "<pre>"@, 0);
        lemma_find_folded(html@, "</pre>"@, start as int);
        if end < start + 5 {
            let j = end - start;
            assert(ascii_lower(html@[end + 0]) == '<');
            assert(ascii_lower(html@[start + j]) == "<pre>"@[j]);
            assert(ascii_lower(html@[end + 1]) == '/');
            assert(html@[end + 1] == html@[start + (j + 1)]);
            if j + 1 < 5 {
                assert(ascii_lower(html@[start + (j + 1)]) == "<pre>"@[j + 1]);
            }
        }
    }
    Ok(string_from_range(&h, start + 5, end))
}

/// Where a scan of the data table stands: inside the table, separator
/// lines seen, wind speed in m/s, stopped, and the rows kept so far.
pub type TableScan = (bool, nat, bool, bool, Seq<Seq<char>>);

/// A trimmed line that marks the end of the table: the station block or
/// the indices that follow it.
pub open spec fn ends_table(t: Seq<char>) -> bool {
    contains_seq(t, "Station information"@) || contains_seq(t, "Station number"@)
        || contains_seq(t, "Showalter"@) || contains_seq(t, "CAPE"@)
}

/// One line of the scan. The table starts after the second separator line
/// ("---"); a header naming "SPED" gives wind speed in m/s; a blank line or
/// an end marker inside the table stops the scan; other table lines are
/// kept, trimmed.
pub open spec fn table_step(st: TableScan, line: Seq<char>) -> TableScan {
    let (in_data, dashes, ms, stopped, rows) = st;
    let t = trim_space(line);
    if stopped {
        st
    } else if t.len() == 0 {
        (in_data, dashes, ms, in_data, rows)
    } else if has_prefix(t, "---"@) {
        (in_data || dashes + 1 >= 2, dashes + 1, ms, false, rows)
    } else if !in_data {
        (false, dashes, ms || contains_seq(t, "SPED"@), false, rows)
    } else if ends_table(t) {
        (true, dashes, ms, true, rows)
    } else {
        (true, dashes, ms, false, rows.push(t))
    }
}

/// The scan after `lines`, from the start of the text.
pub open spec fn table_scan(lines: Seq<Seq<char>>) -> TableScan
    decreases lines.len(),
{
    if lines.len() == 0 {
        (false, 0, false, false, Seq::empty())
    } else {
        table_step(table_scan(lines.drop_last()), lines.last())
    }
}

/// The trimmed rows of the data table of a sounding text, one per line,
/// and whether its header gives wind speed in m/s ("SPED") rather than
/// knots.
pub fn data_table_rows(text: &str) -> (r: (Vec<String>, bool))
    ensures
        r.0@.map_values(|l: String| l@) == table_scan(split_on(text@, '\n')).4,
        r.1 == table_scan(split_on(text@, '\n')).2,
{
    let lines = split_by(text, '\n');
    let ghost ls = split_on(text@, '\n');
    assert(lines@.map_values(|l: String| l@) =~= ls);
    let mut in_data = false;
    let ghost mut dashes: nat = 0;
    let mut dash2 = false;
    let mut ms = false;
    let mut stopped = false;
    let mut rows: Vec<String> = Vec::new();
    let mut i: usize = 0;
    while i < lines.len()
        invariant
            i <= lines@.len(),
            ls == lines@.map_values(|l: String| l@),
            table_scan(ls.take(i as int)) == (in_data, dashes, ms, stopped, rows@.map_values(|l: String| l@)),
            dash2 == (dashes >= 1),
        decreases lines@.len() - i,
    {
        proof {
            assert(ls.take(i + 1).drop_last() =~= ls.take(i as int));
            assert(ls.take(i + 1).last() == ls[i as int]);
        }
        if !stopped {
            let t = trim_str(lines[i].as_str());
            let tv = chars_of(t.as_str());
            if tv.len() == 0 {
                stopped = in_data;
            } else if str_starts_with(t.as_str(), "---") {
                in_data = in_data || dash2;
                proof {
                    dashes = dashes + 1;
                }
                dash2 = true;
            } else if !in_data {
                ms = ms || str_contains(t.as_str(), "SPED");
            } else if str_contains(t.as_str(), "Station information") || str_contains(t.as_str(), "Station number")
                || str_contains(t.as_str(), "Showalter") || str_contains(t.as_str(), "CAPE") {
                stopped = true;
            } else {
                let ghost before = rows@.map_values(|l: String| l@);
                rows.push(t);
                proof {
                    assert(rows@.map_values(|l: String| l@) =~= before.push(trim_space(ls[i as int])));
                }
            }
        }
        i += 1;
    }
    proof {
        assert(ls.take(ls.len() as int) =~= ls);
    }
    (rows, ms)
}

/// A character that may stand in a number: an ASCII digit, '.' or '-'.
pub open spec fn numeric_char(c: char) -> bool {
    ('0' <= c && c <= '9') || c == '.' || c == '-'
}

/// The number of leading numeric characters of `s`.
pub open spec fn numeric_len(s: Seq<char>) -> nat
    decreases s.len(),
{
    if s.len() > 0 && numeric_char(s[0]) {
        1 + numeric_len(s.drop_first())
    } else {
        0
    }
}

/// The value after a header label: the rest of the trimmed line after
/// `label`, trimmed.
pub open spec fn after_label(t: Seq<char>, label: Seq<char>) -> Seq<char> {
    trim_space(t.skip(label.len() as int))
}

/// What the station header holds: station number, observation time, and
/// the latitude, longitude and elevation texts in the order they appear.
pub type HeaderScan = (Seq<char>, Seq<char>, Seq<Seq<char>>, Seq<Seq<char>>, Seq<Seq<char>>);

/// One line of the header: a labelled line sets the station number or the
/// observation time, or adds a coordinate text (for the elevation, only its
/// leading numeric characters).
pub open spec fn header_step(st: HeaderScan, line: Seq<char>) -> HeaderScan {
    let (number, time, lats, lons, elevs) = st;
    let t = trim_space(line);
    if has_prefix(t, "Station number:"@) {
        (after_label(t, "Station number:"@), time, lats, lons, elevs)
    } else if has_prefix(t, "Observation time:"@) {
        (number, after_label(t, "Observation time:"@), lats, lons, elevs)
    } else if has_prefix(t, "Station latitude:"@) {
        (number, time, lats.push(after_label(t, "Station latitude:"@)), lons, elevs)
    } else if has_prefix(t, "Station longitude:"@) {
        (number, time, lats, lons.push(after_label(t, "Station longitude:"@)), elevs)
    } else if has_prefix(t, "Station elevation:"@) {
        let v = after_label(t, "Station elevation:"@);
        (number, time, lats, lons, elevs.push(v.take(numeric_len(v) as int)))
    } else {
        st
    }
}

/// The header after `lines`, starting from `fallback_id` as the station
/// number.
pub open spec fn header_scan(lines: Seq<Seq<char>>, fallback_id: Seq<char>) -> HeaderScan
    decreases lines.len(),
{
    if lines.len() == 0 {
        (fallback_id, Seq::empty(), Seq::empty(), Seq::empty(), Seq::empty())
    } else {
        header_step(header_scan(lines.drop_last(), fallback_id), lines.last())
    }
}

/// The station header of a sounding text, as text: the numbers are read by
/// the caller, each coordinate from the last of its texts that reads.
pub struct StationHeader {
    pub station_number: String,
    pub obs_time: String,
    pub latitudes: Vec<String>,
    pub longitudes: Vec<String>,
    pub elevations: Vec<String>,
}

impl StationHeader {
    /// The header as the scan describes it.
    pub open spec fn view(&self) -> HeaderScan {
        (
            self.station_number@,
            self.obs_time@,
            self.latitudes@.map_values(|l: String| l@),
            self.longitudes@.map_values(|l: String| l@),
            self.elevations@.map_values(|l: String| l@),
        )
    }
}

/// `s` from index `from` on, trimmed.
fn rest_trimmed(s: &Vec<char>, from: usize) -> (r: String)
    requires
        from <= s@.len(),
    ensures
        r@ == trim_space(s@.skip(from as int)),
{
    let rest = string_from_range(s, from, s.len());
    assert(s@.subrange(from as int, s@.len() as int) =~= s@.skip(from as int));
    trim_str(rest.as_str())
}

/// The leading numeric characters of `s`.
fn numeric_prefix(s: &str) -> (r: String)
    ensures
        r@ == s@.take(numeric_len(s@) as int),
{
    let v = chars_of(s);
    let mut k: usize = 0;
    while k < v.len() && (('0' <= v[k] && v[k] <= '9') || v[k] == '.' || v[k] == '-')
        invariant
            k <= v@.len(),
            v@ == s@,
            forall|j: int| 0 <= j < k ==> numeric_char(#[trigger] s@[j]),
        decreases v@.len() - k,
    {
        k += 1;
    }
    proof {
        lemma_numeric_len(s@, k as int);
    }
    string_from_range(&v, 0, k)
}

/// `numeric_len` is the length of the run of numeric characters that
/// starts `s`.
proof fn lemma_numeric_len(s: Seq<char>, k: int)
    requires
        0 <= k <= s.len(),
        forall|j: int| 0 <= j < k ==> numeric_char(#[trigger] s[j]),
        k == s.len() || !numeric_char(s[k]),
    ensures
        numeric_len(s) == k,
    decreases k,
{
    if k > 0 {
        assert forall|j: int| 0 <= j < k - 1 implies numeric_char(#[trigger] s.drop_first()[j]) by {
            assert(s.drop_first()[j] == s[j + 1]);
        }
        if k < s.len() {
            assert(s.drop_first()[k - 1] == s[k]);
        }
        lemma_numeric_len(s.drop_first(), k - 1);
    }
}

/// Read the station header of a sounding text, line by line.
pub fn parse_station_header(text: &str, fallback_id: &str) -> (r: StationHeader)
    ensures
        r.view() == header_scan(split_on(text@, '\n'), fallback_id@),
{
    let lines = split_by(text, '\n');
    let ghost ls = split_on(text@, '\n');
    assert(lines@.map_values(|l: String| l@) =~= ls);
    let mut h = StationHeader {
        station_number: owned(fallback_id),
        obs_time: String::new(),
        latitudes: Vec::new(),
        longitudes: Vec::new(),
        elevations: Vec::new(),
    };
    assert(h.view() == header_scan(ls.take(0), fallback_id@));
    let mut i: usize = 0;
    while i < lines.len()
        invariant
            i <= lines@.len(),
            ls == lines@.map_values(|l: String| l@),
            h.view() == header_scan(ls.take(i as int), fallback_id@),
        decreases lines@.len() - i,
    {
        proof {
            assert(ls.take(i + 1).drop_last() =~= ls.take(i as int));
            assert(ls.take(i + 1).last() == ls[i as int]);
            reveal_strlit("Station number:");
            reveal_strlit("Observation time:");
            reveal_strlit("Station latitude:");
            reveal_strlit("Station longitude:");
            reveal_strlit("Station elevation:");
        }
        let t = trim_str(lines[i].as_str());
        let tv = chars_of(t.as_str());
        let ghost before = h.view();
        if str_starts_with(t.as_str(), "Station number:") {
            h.station_number = rest_trimmed(&tv, 15);
        } else if str_starts_with(t.as_str(), "Observation time:") {
            h.obs_time = rest_trimmed(&tv, 17);
        } else if str_starts_with(t.as_str(), "Station latitude:") {
            h.latitudes.push(rest_trimmed(&tv, 17));
            proof {
                assert(h.view().2 =~= before.2.push(after_label(t@, "Station latitude:"@)));
            }
        } else if str_starts_with(t.as_str(), "Station longitude:") {
            h.longitudes.push(rest_trimmed(&tv, 18));
            proof {
                assert(h.view().3 =~= before.3.push(after_label(t@, "Station longitude:"@)));
            }
        } else if str_starts_with(t.as_str(), "Station elevation:") {
            let v = rest_trimmed(&tv, 18);
            h.elevations.push(numeric_prefix(v.as_str()));
            proof {
                let w = after_label(t@, "Station elevation:"@);
                assert(h.view().4 =~= before.4.push(w.take(numeric_len(w) as int)));
            }
        }
        i += 1;
    }
    proof {
        assert(ls.take(ls.len() as int) =~= ls);
    }
    h
}

/// The six columns a sounding row is read from: pressure, height,
/// temperature, dew point, wind direction and wind speed (the 1st to 4th,
/// 7th and 8th words); `None` for a row of fewer than eight words.
pub fn level_fields(row: &str) -> (r: Option<Vec<String>>)
    ensures
        match r {
            Some(f) => words(row@).len() >= 8 && f@.map_values(|w: String| w@) == seq![
                words(row@)[0],
                words(row@)[1],
                words(row@)[2],
                words(row@)[3],
                words(row@)[6],
                words(row@)[7],
            ],
            None => words(row@).len() < 8,
        },
{
    let w = split_whitespace(row);
    if w.len() < 8 {
        return None;
    }
    let mut f: Vec<String> = Vec::new();
    f.push(w[0].clone());
    f.push(w[1].clone());
    f.push(w[2].clone());
    f.push(w[3].clone());
    f.push(w[6].clone());
    f.push(w[7].clone());
    assert(f@.map_values(|x: String| x@) =~= seq![
        words(row@)[0],
        words(row@)[1],
        words(row@)[2],
        words(row@)[3],
        words(row@)[6],
        words(row@)[7],
    ]);
    Some(f)
}

/// The network station a sounding header describes: the one its station
/// number names, else the one `fallback_id` names (either matched without
/// regard to case).
pub fn header_station(station_number: &str, fallback_id: &str) -> (r: Option<RaobStation>)
    ensures
        r == match raob_entry(RAOB_STATIONS@, unicode_upper(station_number@)) {
            Some(st) => Some(st),
            None => raob_entry(RAOB_STATIONS@, unicode_upper(fallback_id@)),
        },
{
    match find_raob_station(station_number) {
        Some(st) => Some(st),
        None => find_raob_station(fallback_id),
    }
}

/// A column value that stands for missing data: blank, "////", "****" or
/// "99999" once trimmed.
pub open spec fn is_missing_field(s: Seq<char>) -> bool {
    let t = trim_space(s);
    t.len() == 0 || t == "////"@ || t == "****"@ || t == "99999"@
}

/// Whether a column value stands for missing data (see `is_missing_field`).
pub fn missing_field(s: &str) -> (r: bool)
    ensures
        r == is_missing_field(s@),
{
    let t = trim_str(s);
    let n = chars_of(t.as_str()).len();
    n == 0 || str_eq(t.as_str(), "////") || str_eq(t.as_str(), "****") || str_eq(t.as_str(), "99999")
}

} // verus!
