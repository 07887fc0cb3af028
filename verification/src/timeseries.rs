//! Model time series: stepping back to an earlier model run when the
//! latest one is not available yet.
use vstd::prelude::*;
use chrono::Datelike;
use crate::text::{append, contains_seq, decimal_padded, owned, str_contains, str_eq, to_lower, unicode_lower};

verus! {

#[verifier::external_type_specification]
#[verifier::external_body]
pub struct ExDateParseError(chrono::format::ParseError);

/// The first year of chrono's calendar.
pub const MIN_YEAR: i32 = -262143;

/// The last year of chrono's calendar.
pub const MAX_YEAR: i32 = 262142;

/// Whether `y` is a leap year of the proleptic Gregorian calendar.
pub open spec fn is_leap(y: int) -> bool {
    y % 4 == 0 && (y % 100 != 0 || y % 400 == 0)
}

/// The number of days of month `m` of year `y`.
pub open spec fn days_in_month(y: int, m: int) -> int {
    if m == 2 {
        if is_leap(y) {
            29
        } else {
            28
        }
    } else if m == 4 || m == 6 || m == 9 || m == 11 {
        30
    } else {
        31
    }
}

/// Whether (y, m, d) is a day of chrono's calendar.
pub open spec fn valid_ymd(t: (i32, u32, u32)) -> bool {
    &&& MIN_YEAR <= t.0 <= MAX_YEAR
    &&& 1 <= t.1 <= 12
    &&& 1 <= t.2 <= days_in_month(t.0 as int, t.1 as int)
}

/// The day before (y, m, d) in the Gregorian calendar; `None` for the
/// first day of chrono's calendar.
pub open spec fn gregorian_pred(t: (i32, u32, u32)) -> Option<(i32, u32, u32)> {
    let (y, m, d) = t;
    if d > 1 {
        Some((y, m, (d - 1) as u32))
    } else if m > 1 {
        Some((y, (m - 1) as u32, days_in_month(y as int, m - 1) as u32))
    } else if y > MIN_YEAR {
        Some(((y - 1) as i32, 12u32, 31u32))
    } else {
        None
    }
}

/// How chrono's "%Y" writes year `y`: four digits for years 0 to 9999,
/// else a sign and at least four digits.
pub open spec fn year_text(y: int) -> Seq<char> {
    if 0 <= y <= 9999 {
        decimal_padded(y as nat, 4)
    } else if y < 0 {
        "-"@ + decimal_padded((-y) as nat, 4)
    } else {
        "+"@ + decimal_padded(y as nat, 4)
    }
}

/// The "%Y%m%d" text of a day: year, then month and day in two digits.
pub open spec fn ymd_text(t: (i32, u32, u32)) -> Seq<char> {
    year_text(t.0 as int) + decimal_padded(t.1 as nat, 2) + decimal_padded(t.2 as nat, 2)
}

/// The (year, month, day) that chrono's `NaiveDate::parse_from_str`
/// reads from `text` by `fmt`, or `None` when it reports an error.
pub uninterp spec fn parsed_ymd(text: Seq<char>, fmt: Seq<char>) -> Option<(i32, u32, u32)>;

/// chrono's `NaiveDate::parse_from_str(text, fmt)`, the day taken apart
/// by `Datelike::{year, month, day}`. The contract names the outcome
/// `parsed_ymd` of the arguments and adds that a day chrono returns is a
/// day of its calendar (a `NaiveDate` is always valid).
#[verifier::external_body]
fn parse_date(text: &str, fmt: &str) -> (r: Result<(i32, u32, u32), chrono::format::ParseError>)
    ensures
        match r {
            Ok(t) => parsed_ymd(text@, fmt@) == Some(t) && valid_ymd(t),
            Err(_) => parsed_ymd(text@, fmt@) is None,
        },
{
    match chrono::NaiveDate::parse_from_str(text, fmt) {
        Ok(day) => Ok((day.year(), day.month(), day.day())),
        Err(e) => Err(e),
    }
}

/// chrono's `NaiveDate::pred_opt` on the day (y, m, d), built with
/// `NaiveDate::from_ymd_opt` and taken apart by `Datelike`: the Gregorian
/// day before, `None` only for the first day of chrono's calendar.
#[verifier::external_body]
pub(crate) fn day_before(t: (i32, u32, u32)) -> (r: Option<(i32, u32, u32)>)
    requires
        valid_ymd(t),
    ensures
        r == gregorian_pred(t),
{
    match chrono::NaiveDate::from_ymd_opt(t.0, t.1, t.2) {
        Some(day) => match day.pred_opt() {
            Some(p) => Some((p.year(), p.month(), p.day())),
            None => None,
        },
        None => None,
    }
}

/// chrono's `NaiveDate::format(fmt)` on the day (y, m, d), built with
/// `NaiveDate::from_ymd_opt`, turned into a `String`. The format is held
/// to "%Y%m%d", which writes the year as `year_text` says and the month
/// and day in two digits, without failing.
#[verifier::external_body]
fn format_date(t: (i32, u32, u32), fmt: &str) -> (r: String)
    requires
        valid_ymd(t),
        fmt@ == "%Y%m%d"@,
    ensures
        r@ == ymd_text(t),
{
    match chrono::NaiveDate::from_ymd_opt(t.0, t.1, t.2) {
        Some(day) => day.format(fmt).to_string(),
        None => String::new(),
    }
}

/// The date text of the day before the "YYYYMMDD" date `text`, if `text`
/// reads as a date and has a day before it.
pub open spec fn prev_day_text(text: Seq<char>) -> Option<Seq<char>> {
    match parsed_ymd(text, "%Y%m%d"@) {
        Some(t) => match gregorian_pred(t) {
            Some(p) => Some(ymd_text(p)),
            None => None,
        },
        None => None,
    }
}

/// Why a model run could not be stepped back.
#[derive(Debug, Clone, Copy, PartialEq, Eq, Structural)]
pub enum FallbackError {
    /// The run date is not a "YYYYMMDD" date.
    InvalidDate,
    /// The run date has no earlier day.
    NoEarlierDay,
}

/// Hours between runs of `model`: six for GFS and NAM, one otherwise.
pub open spec fn run_step(model: Seq<char>) -> u32 {
    if model == "gfs"@ || model == "nam"@ {
        6
    } else {
        1
    }
}

/// The last run hour of a day for `model`: 18Z for GFS and NAM, 23Z
/// otherwise.
pub open spec fn last_hour(model: Seq<char>) -> u32 {
    if model == "gfs"@ || model == "nam"@ {
        18
    } else {
        23
    }
}

/// The run hour one run before `hour` on the same day; `None` when the
/// previous run falls on the day before.
pub fn fallback_hour(model: &str, hour: u32) -> (r: Option<u32>)
    ensures
        hour >= run_step(model@) ==> r == Some((hour - run_step(model@)) as u32),
        hour < run_step(model@) ==> r is None,
{
    let step: u32 = if str_eq(model, "gfs") || str_eq(model, "nam") { 6 } else { 1 };
    if hour >= step {
        Some(hour - step)
    } else {
        None
    }
}

/// The hour of the last run of a day for `model`.
pub fn last_run_hour(model: &str) -> (r: u32)
    ensures
        r == last_hour(model@),
{
    if str_eq(model, "gfs") || str_eq(model, "nam") {
        18
    } else {
        23
    }
}

/// Step a model run (`date` as "YYYYMMDD", `hour` in UTC) back to the run
/// before it: the same day, one run earlier, when there is one; else the
/// last run of the day before. On an error nothing is changed.
pub fn fallback_run(model: &str, date: &mut String, hour: &mut u32) -> (r: Result<(), FallbackError>)
    ensures
        *old(hour) >= run_step(model@) ==> r is Ok && *final(hour) == *old(hour) - run_step(model@)
            && final(date)@ == old(date)@,
        *old(hour) < run_step(model@) ==> match prev_day_text(old(date)@) {
            Some(t) => r is Ok && final(date)@ == t && *final(hour) == last_hour(model@),
            None => r is Err,
        },
        *old(hour) < run_step(model@) ==> (r == Err::<(), FallbackError>(FallbackError::InvalidDate) <==> parsed_ymd(
            old(date)@,
            "%Y%m%d"@,
        ) is None),
        r is Err ==> *final(hour) == *old(hour) && final(date)@ == old(date)@,
{
    match fallback_hour(model, *hour) {
        Some(h) => {
            *hour = h;
            Ok(())
        },
        None => {
            let day = match parse_date(date.as_str(), "%Y%m%d") {
                Ok(d) => d,
                Err(_) => {
                    return Err(FallbackError::InvalidDate);
                },
            };
            let prev = match day_before(day) {
                Some(p) => p,
                None => {
                    return Err(FallbackError::NoEarlierDay);
                },
            };
            assert(valid_ymd(prev)) by {
                let (y, m, d) = day;
                if d <= 1 && m > 1 {
                    assert(days_in_month(y as int, m - 1) >= 28);
                }
            }
            proof {
                reveal_strlit("%Y%m%d");
            }
            *date = format_date(prev, "%Y%m%d");
            *hour = last_run_hour(model);
            Ok(())
        },
    }
}

/// The models a time series can be taken from.
pub open spec fn supported_model(m: Seq<char>) -> bool {
    m == "hrrr"@ || m == "rap"@ || m == "gfs"@ || m == "nam"@
}

/// The longest forecast of a (lower-case) model, in hours.
pub open spec fn max_hours_of(m: Seq<char>) -> u32 {
    if m == "hrrr"@ {
        48
    } else if m == "gfs"@ {
        384
    } else if m == "rap"@ {
        51
    } else if m == "nam"@ {
        84
    } else {
        48
    }
}

/// Every model that the refusal of an unknown model lists as usable is
/// taken, with its own longest forecast: HRRR 48 hours, RAP 51, GFS 384,
/// NAM 84. No other model is taken.
pub proof fn law_listed_models_taken(m: Seq<char>)
    ensures
        m == "hrrr"@ ==> supported_model(m) && max_hours_of(m) == 48,
        m == "rap"@ ==> supported_model(m) && max_hours_of(m) == 51,
        m == "gfs"@ ==> supported_model(m) && max_hours_of(m) == 384,
        m == "nam"@ ==> supported_model(m) && max_hours_of(m) == 84,
        !(m == "hrrr"@ || m == "rap"@ || m == "gfs"@ || m == "nam"@) ==> !supported_model(m),
{
    reveal_strlit("hrrr");
    reveal_strlit("rap");
    reveal_strlit("gfs");
    reveal_strlit("nam");
    assert("rap"@[0] != "gfs"@[0] && "nam"@[0] != "gfs"@[0] && "nam"@[0] != "rap"@[0]);
    assert("hrrr"@.len() != "rap"@.len());
}

/// The product file a level is read from: pressure levels ("mb" or "hPa")
/// from "prs", others from "sfc".
pub open spec fn product_of(level: Seq<char>) -> Seq<char> {
    if contains_seq(level, "mb"@) || contains_seq(level, "hPa"@) {
        "prs"@
    } else {
        "sfc"@
    }
}

/// What a time-series request fetches: the model in lower case, the hours
/// capped at the model's longest forecast, and the product file.
pub struct SeriesPlan {
    pub model: String,
    pub hours: u32,
    pub product: &'static str,
}

/// The plan of a time-series request, or the refusal of an unknown model.
pub fn series_plan(model: &str, hours: u32, level: &str) -> (r: Result<SeriesPlan, String>)
    ensures
        match r {
            Ok(p) => supported_model(unicode_lower(model@)) && p.model@ == unicode_lower(model@)
                && p.hours == (if hours < max_hours_of(p.model@) { hours } else { max_hours_of(p.model@) })
                && p.product@ == product_of(level@),
            Err(e) => !supported_model(unicode_lower(model@)) && e@ == "Model '"@ + model@
                + "' not supported. Use: hrrr, rap, gfs, nam"@,
        },
{
    let m = to_lower(model);
    let ms = m.as_str();
    if !(str_eq(ms, "hrrr") || str_eq(ms, "rap") || str_eq(ms, "gfs") || str_eq(ms, "nam")) {
        let mut e = owned("Model '");
        append(&mut e, model);
        append(&mut e, "' not supported. Use: hrrr, rap, gfs, nam");
        return Err(e);
    }
    let max: u32 = if str_eq(ms, "hrrr") {
        48
    } else if str_eq(ms, "gfs") {
        384
    } else if str_eq(ms, "rap") {
        51
    } else if str_eq(ms, "nam") {
        84
    } else {
        48
    };
    let capped = if hours < max { hours } else { max };
    let product = if str_contains(level, "mb") || str_contains(level, "hPa") { "prs" } else { "sfc" };
    Ok(SeriesPlan { model: m, hours: capped, product })
}

/// How many runs a time series tries: the latest and the one before.
pub const MAX_ATTEMPTS: u32 = 2;

/// Where the fetching of a time series stands: the attempt (run) being
/// fetched, the forecast hour just asked for, the hours wanted, and the
/// failures in a row and failed fetches so far. One fetch is made per hour,
/// so an attempt has made `fhour + 1` fetches.
#[derive(Debug, Clone, Copy, PartialEq, Eq, Structural)]
pub struct SeriesState {
    pub attempt: u32,
    pub fhour: u32,
    pub hours: u32,
    pub consecutive: u32,
    pub failed: u32,
}

/// What came of fetching one forecast hour.
#[derive(Debug, Clone, Copy, PartialEq, Eq, Structural)]
pub enum FetchEvent {
    /// The value was read.
    Fetched,
    /// The download failed.
    DownloadFailed,
    /// The file did not parse or held no matching message.
    Unreadable,
    /// The message could not be unpacked.
    UnpackFailed,
}

/// What the time series does next.
#[derive(Debug, Clone, Copy, PartialEq, Eq, Structural)]
pub enum SeriesAction {
    /// Fetch this forecast hour of the current run.
    Fetch(u32),
    /// Step the run back (`fallback_run`) and fetch its hour 0.
    FallBack,
    /// Stop with the error of the hour-0 fetch.
    Fail,
    /// Report what was fetched.
    Finish,
}

/// A state the fetching can stop in: the counters may include the hour
/// just fetched.
pub open spec fn series_bounded(s: SeriesState) -> bool {
    &&& 1 <= s.attempt <= MAX_ATTEMPTS
    &&& s.hours <= 384
    &&& s.fhour <= s.hours
    &&& s.consecutive <= s.fhour + 1
    &&& s.failed <= s.fhour + 1
}

/// A state waiting for the fetch of hour `fhour`: the counters cover the
/// hours before it.
pub open spec fn series_valid(s: SeriesState) -> bool {
    &&& series_bounded(s)
    &&& s.consecutive <= s.fhour
    &&& s.failed <= s.fhour
}

/// The state of a new attempt: hour 0 asked for, counters cleared.
pub open spec fn attempt_start(attempt: u32, hours: u32) -> SeriesState {
    SeriesState { attempt, fhour: 0, hours, consecutive: 0, failed: 0 }
}

/// The start of a time series over `hours` forecast hours: hour 0 of the
/// latest run is fetched first.
/// `hours` is at most the longest forecast of any model, as `series_plan`
/// caps it.
pub fn series_start(hours: u32) -> (r: (SeriesState, SeriesAction))
    requires
        hours <= 384,
    ensures
        r == (attempt_start(1, hours), SeriesAction::Fetch(0)),
        series_valid(r.0),
{
    (SeriesState { attempt: 1, fhour: 0, hours, consecutive: 0, failed: 0 }, SeriesAction::Fetch(0))
}

/// The step after the fetch of hour `s.fhour` ended in `e`:
/// - hour 0 must be read; when its download fails the run before is tried
///   if this was the first attempt; any other failure there stops;
/// - a later hour that fails to download or read adds a failure in a row;
///   three in a row by hour 5 mark the run incomplete, and the run before is
///   tried if this was the first attempt, else what was fetched is reported;
/// - an hour whose message does not unpack counts as failed but clears the
///   failures in a row;
/// - otherwise the next hour is fetched, until the last.
pub open spec fn series_step(s: SeriesState, e: FetchEvent) -> (SeriesState, SeriesAction) {
    let next = |t: SeriesState|
        if t.fhour < t.hours {
            (
                SeriesState { fhour: (t.fhour + 1) as u32, ..t },
                SeriesAction::Fetch((t.fhour + 1) as u32),
            )
        } else {
            (t, SeriesAction::Finish)
        };
    if s.fhour == 0 {
        match e {
            FetchEvent::Fetched => next(s),
            FetchEvent::DownloadFailed => if s.attempt < MAX_ATTEMPTS {
                (attempt_start((s.attempt + 1) as u32, s.hours), SeriesAction::FallBack)
            } else {
                (s, SeriesAction::Fail)
            },
            _ => (s, SeriesAction::Fail),
        }
    } else {
        match e {
            FetchEvent::Fetched => next(SeriesState { consecutive: 0, ..s }),
            FetchEvent::UnpackFailed => next(SeriesState { consecutive: 0, failed: (s.failed + 1) as u32, ..s }),
            _ => {
                let t = SeriesState {
                    consecutive: (s.consecutive + 1) as u32,
                    failed: (s.failed + 1) as u32,
                    ..s
                };
                if t.consecutive >= 3 && s.fhour <= 5 {
                    if s.attempt < MAX_ATTEMPTS {
                        (attempt_start((s.attempt + 1) as u32, s.hours), SeriesAction::FallBack)
                    } else {
                        (t, SeriesAction::Finish)
                    }
                } else {
                    next(t)
                }
            },
        }
    }
}

/// One step of fetching a time series (see `series_step`).
pub fn series_next(s: SeriesState, e: FetchEvent) -> (r: (SeriesState, SeriesAction))
    requires
        series_valid(s),
    ensures
        r == series_step(s, e),
        series_bounded(r.0),
        r.1 is Fetch || r.1 is FallBack ==> series_valid(r.0),
{
    let advance = |t: SeriesState| -> (u: (SeriesState, SeriesAction))
        requires
            series_bounded(t),
            t.consecutive <= t.fhour + 1,
            t.failed <= t.fhour + 1,
        ensures
            u == (if t.fhour < t.hours {
                (
                    SeriesState { fhour: (t.fhour + 1) as u32, ..t },
                    SeriesAction::Fetch((t.fhour + 1) as u32),
                )
            } else {
                (t, SeriesAction::Finish)
            }),
            series_bounded(u.0),
            u.1 is Fetch ==> series_valid(u.0),
        {
            if t.fhour < t.hours {
                (
                    SeriesState { fhour: t.fhour + 1, ..t },
                    SeriesAction::Fetch(t.fhour + 1),
                )
            } else {
                (t, SeriesAction::Finish)
            }
        };
    if s.fhour == 0 {
        match e {
            FetchEvent::Fetched => advance(s),
            FetchEvent::DownloadFailed => if s.attempt < MAX_ATTEMPTS {
                (
                    SeriesState { attempt: s.attempt + 1, fhour: 0, hours: s.hours, consecutive: 0, failed: 0 },
                    SeriesAction::FallBack,
                )
            } else {
                (s, SeriesAction::Fail)
            },
            _ => (s, SeriesAction::Fail),
        }
    } else {
        match e {
            FetchEvent::Fetched => advance(SeriesState { consecutive: 0, ..s }),
            FetchEvent::UnpackFailed => advance(SeriesState { consecutive: 0, failed: s.failed + 1, ..s }),
            _ => {
                let t = SeriesState { consecutive: s.consecutive + 1, failed: s.failed + 1, ..s };
                if t.consecutive >= 3 && s.fhour <= 5 {
                    if s.attempt < MAX_ATTEMPTS {
                        (
                            SeriesState {
                                attempt: s.attempt + 1,
                                fhour: 0,
                                hours: s.hours,
                                consecutive: 0,
                                failed: 0,
                            },
                            SeriesAction::FallBack,
                        )
                    } else {
                        (t, SeriesAction::Finish)
                    }
                } else {
                    advance(t)
                }
            },
        }
    }
}

/// A time series tries at most two runs: the run is stepped back only from
/// the first attempt, and a step that asks for another fetch leaves a state
/// that can take the next step.
pub proof fn law_series_attempts_bounded(s: SeriesState, e: FetchEvent)
    requires
        series_valid(s),
    ensures
        series_bounded(series_step(s, e).0),
        (series_step(s, e).1 is Fetch || series_step(s, e).1 is FallBack) ==> series_valid(series_step(s, e).0),
        series_step(s, e).1 == SeriesAction::FallBack ==> s.attempt == 1 && series_step(s, e).0.attempt == 2,
{
}

} // verus!
