//! Evidence checks: how observation and model agree, field by field, and
//! the notes and confidence that follow from it.
use vstd::prelude::*;
use crate::briefing::int_text;
use crate::text::{append, contains_seq, opt_chars, owned, push_decimal, str_contains, str_eq};

verus! {

/// The status name for `s`: one of the known agreement statuses, or
/// "unknown".
pub open spec fn status_name(s: Seq<char>) -> Seq<char> {
    if s == "agree"@ {
        "agree"@
    } else if s == "minor_disagree"@ {
        "minor_disagree"@
    } else if s == "disagree"@ {
        "disagree"@
    } else {
        "unknown"@
    }
}

/// The `'static` status name for `s` (see `status_name`).
pub fn leak_str(s: &str) -> (r: &'static str)
    ensures
        r@ == status_name(s@),
{
    if str_eq(s, "agree") {
        "agree"
    } else if str_eq(s, "minor_disagree") {
        "minor_disagree"
    } else if str_eq(s, "disagree") {
        "disagree"
    } else {
        "unknown"
    }
}

/// A field and its agreement status, as views.
pub type StatusView = (Seq<char>, Seq<char>);

/// The view of a list of (field, status) pairs.
pub open spec fn statuses_view(st: Seq<(&str, &str)>) -> Seq<StatusView> {
    st.map_values(|p: (&str, &str)| (p.0@, p.1@))
}

/// The fields of `st` whose status is `status`, in order.
pub open spec fn fields_with(st: Seq<StatusView>, status: Seq<char>) -> Seq<Seq<char>>
    decreases st.len(),
{
    if st.len() == 0 {
        Seq::empty()
    } else if st.last().1 == status {
        fields_with(st.drop_last(), status).push(st.last().0)
    } else {
        fields_with(st.drop_last(), status)
    }
}

/// How many entries of `st` have status `status`.
pub open spec fn count_status(st: Seq<StatusView>, status: Seq<char>) -> nat {
    fields_with(st, status).len()
}

/// What the assessment reads of the observation, beyond its presence.
pub struct ObsFacts {
    /// A wind speed is reported and is at least 25 kt.
    pub wind_strong: bool,
    /// A wind speed is reported and is at least 20 kt.
    pub wind_fresh: bool,
    /// Minutes since the observation.
    pub age_minutes: i64,
}

/// What the assessment reads of the model, beyond its presence.
pub struct ModelFacts {
    /// A wind speed is given and is at least 20 kt.
    pub wind_fresh: bool,
    /// A CAPE is given and is above 1000 J/kg.
    pub cape_high: bool,
    /// No CAPE is given, or it is at most 0.
    pub cape_none: bool,
    /// A composite reflectivity is given and is above 35 dBZ.
    pub echo: bool,
    /// No composite reflectivity is given, or it is at most 20 dBZ.
    pub echo_weak: bool,
}

/// The notes for each field in disagreement, in order: the temperature
/// note carries `temp_diff` (the formatted difference, given when both
/// temperatures are known).
pub open spec fn conflict_notes(st: Seq<StatusView>, temp_diff: Option<Seq<char>>) -> Seq<Seq<char>>
    decreases st.len(),
{
    if st.len() == 0 {
        Seq::empty()
    } else {
        let r = conflict_notes(st.drop_last(), temp_diff);
        let (f, s) = st.last();
        if s != "disagree"@ {
            r
        } else if f == "temperature"@ {
            match temp_diff {
                Some(d) => r.push("Model temperature differs from observation by "@ + d + "\u{b0}C"@),
                None => r,
            }
        } else if f == "dewpoint"@ {
            r.push("Model dewpoint differs significantly from observation"@)
        } else if f == "wind_speed"@ || f == "wind_direction"@ {
            r.push("Model wind differs significantly from observation"@)
        } else {
            r
        }
    }
}

/// One note when `c` holds, none otherwise.
pub open spec fn note_if(c: bool, note: Seq<char>) -> Seq<Seq<char>> {
    if c {
        seq![note]
    } else {
        Seq::empty()
    }
}

/// Whether an alert event names wind.
pub open spec fn names_wind(e: Seq<char>) -> bool {
    contains_seq(e, "Wind"@) || contains_seq(e, "wind"@)
}

/// The notes before duplicates are dropped, in the order they are made.
pub open spec fn raw_notes(
    st: Seq<StatusView>,
    obs: Option<ObsFacts>,
    model: Option<ModelFacts>,
    temp_diff: Option<Seq<char>>,
    alerts: Option<Seq<Seq<char>>>,
) -> Seq<Seq<char>> {
    let has_alerts = match alerts {
        Some(a) => a.len() > 0,
        None => false,
    };
    let cape_high = match model {
        Some(m) => m.cape_high,
        None => false,
    };
    let cape_none = match model {
        Some(m) => m.cape_none,
        None => true,
    };
    let echo = match model {
        Some(m) => m.echo,
        None => false,
    };
    let echo_weak = match model {
        Some(m) => m.echo_weak,
        None => true,
    };
    let obs_strong = match obs {
        Some(o) => o.wind_strong,
        None => false,
    };
    let obs_fresh = match obs {
        Some(o) => o.wind_fresh,
        None => false,
    };
    let model_fresh = match model {
        Some(m) => m.wind_fresh,
        None => false,
    };
    let stale = match obs {
        Some(o) => o.age_minutes > 120,
        None => false,
    };
    let wind_alert = match alerts {
        Some(a) => exists|i: int| 0 <= i < a.len() && names_wind(#[trigger] a[i]),
        None => false,
    };
    note_if(obs is None, "METAR observation unavailable \u{2014} confidence reduced"@)
        + note_if(model is None, "HRRR model data unavailable \u{2014} confidence reduced"@)
        + note_if(
        st.len() > 0 && count_status(st, "disagree"@) == 0 && count_status(st, "agree"@) == st.len(),
        "All sources in good agreement"@,
    ) + note_if(
        st.len() > 0 && count_status(st, "disagree"@) == 0 && count_status(st, "agree"@) != st.len(),
        "Sources mostly agree with minor differences"@,
    ) + conflict_notes(st, temp_diff) + note_if(
        obs_strong,
        "Strong winds confirmed by observation"@,
    ) + note_if(
        obs_strong && model_fresh,
        "Strong winds confirmed by both observation and model"@,
    ) + note_if(cape_high && has_alerts, "Instability and active alerts suggest elevated severe risk"@)
        + note_if(echo && !has_alerts, "Radar echoes present but no active weather alert"@) + note_if(
        has_alerts && cape_none && echo_weak,
        "Active alert but model shows no instability \u{2014} possible timing/location issue"@,
    ) + note_if(
        has_alerts && wind_alert && obs_fresh,
        "Wind advisory/warning consistent with observed conditions"@,
    ) + note_if(
        stale,
        "METAR observation is "@ + int_text(obs->0.age_minutes as int) + " minutes old \u{2014} data may be stale"@,
    )
}

/// `s` with each run of equal neighbours cut to its first.
pub open spec fn dedup(s: Seq<Seq<char>>) -> Seq<Seq<char>>
    decreases s.len(),
{
    if s.len() <= 1 {
        s
    } else if s.last() == s[s.len() - 2] {
        dedup(s.drop_last())
    } else {
        dedup(s.drop_last()).push(s.last())
    }
}

/// The fields of `statuses` whose status is `status`, in order.
pub fn fields_of(statuses: &Vec<(&str, &str)>, status: &str) -> (r: Vec<String>)
    ensures
        r@.map_values(|f: String| f@) == fields_with(statuses_view(statuses@), status@),
{
    let ghost st = statuses_view(statuses@);
    let mut out: Vec<String> = Vec::new();
    let mut i: usize = 0;
    while i < statuses.len()
        invariant
            i <= statuses@.len(),
            st == statuses_view(statuses@),
            out@.map_values(|f: String| f@) == fields_with(st.take(i as int), status@),
        decreases statuses@.len() - i,
    {
        proof {
            assert(st.take(i + 1).drop_last() =~= st.take(i as int));
            assert(st.take(i + 1).last() == st[i as int]);
        }
        let (f, s) = statuses[i];
        if str_eq(s, status) {
            let ghost before = out@.map_values(|f: String| f@);
            out.push(owned(f));
            proof {
                assert(out@.map_values(|f: String| f@) =~= before.push(f@));
            }
        }
        i += 1;
    }
    proof {
        assert(st.take(st.len() as int) =~= st);
    }
    out
}

/// How many of `statuses` are "agree", "minor_disagree" and "disagree".
pub fn status_counts(statuses: &Vec<(&str, &str)>) -> (r: (usize, usize, usize))
    ensures
        r.0 == count_status(statuses_view(statuses@), "agree"@),
        r.1 == count_status(statuses_view(statuses@), "minor_disagree"@),
        r.2 == count_status(statuses_view(statuses@), "disagree"@),
{
    (
        fields_of(statuses, "agree").len(),
        fields_of(statuses, "minor_disagree").len(),
        fields_of(statuses, "disagree").len(),
    )
}

/// The confidence level of a comparison: "low" when a source is missing
/// or nothing was compared; else "high" with no disagreement and at most
/// one minor one, "medium" with at most one disagreement, "low" beyond;
/// an observation more than two hours old lowers "high" to "medium".
pub open spec fn confidence_of(st: Seq<StatusView>, obs: Option<ObsFacts>, model_present: bool) -> Seq<char> {
    if obs is None || !model_present {
        "low"@
    } else if st.len() == 0 {
        "low"@
    } else {
        let minor = count_status(st, "minor_disagree"@);
        let dis = count_status(st, "disagree"@);
        let level = if dis == 0 && minor <= 1 {
            "high"@
        } else if dis <= 1 {
            "medium"@
        } else {
            "low"@
        };
        if obs->0.age_minutes > 120 && level == "high"@ {
            "medium"@
        } else {
            level
        }
    }
}

/// The confidence levels by the number of disagreements: with both
/// sources present and something compared, one disagreement gives
/// "medium", two or more give "low", and none with at most one minor one
/// gives "high" for an observation at most two hours old and "medium"
/// for an older one; none with two or more minor ones gives "medium"; a
/// missing source or an empty comparison gives "low".
pub proof fn law_confidence_by_disagreements(st: Seq<StatusView>, obs: Option<ObsFacts>, model_present: bool)
    ensures
        obs is None || !model_present || st.len() == 0 ==> confidence_of(st, obs, model_present) == "low"@,
        obs is Some && model_present && st.len() > 0 && count_status(st, "disagree"@) == 1
            ==> confidence_of(st, obs, model_present) == "medium"@,
        obs is Some && model_present && st.len() > 0 && count_status(st, "disagree"@) >= 2
            ==> confidence_of(st, obs, model_present) == "low"@,
        obs is Some && model_present && st.len() > 0 && count_status(st, "disagree"@) == 0
            && count_status(st, "minor_disagree"@) <= 1 && obs->0.age_minutes <= 120
            ==> confidence_of(st, obs, model_present) == "high"@,
        obs is Some && model_present && st.len() > 0 && count_status(st, "disagree"@) == 0 && (count_status(
            st,
            "minor_disagree"@,
        ) >= 2 || obs->0.age_minutes > 120) ==> confidence_of(st, obs, model_present) == "medium"@,
{
    reveal_strlit("high");
    reveal_strlit("medium");
    reveal_strlit("low");
    assert("low"@.len() == 3 && "medium"@.len() == 6 && "high"@.len() == 4);
}

/// The confidence level of a comparison (see `confidence_of`).
pub fn confidence_level(statuses: &Vec<(&str, &str)>, obs: &Option<ObsFacts>, model_present: bool) -> (r: &'static str)
    ensures
        r@ == confidence_of(statuses_view(statuses@), *obs, model_present),
{
    proof {
        reveal_strlit("high");
        reveal_strlit("medium");
        reveal_strlit("low");
    }
    let age = match obs {
        None => {
            return "low";
        },
        Some(o) => o.age_minutes,
    };
    if !model_present || statuses.len() == 0 {
        return "low";
    }
    let (_agree, minor, dis) = status_counts(statuses);
    let level = if dis == 0 && minor <= 1 {
        "high"
    } else if dis <= 1 {
        "medium"
    } else {
        "low"
    };
    if age > 120 && dis == 0 && minor <= 1 {
        "medium"
    } else {
        level
    }
}

/// The notes for the fields in disagreement (see `conflict_notes`).
fn conflict_notes_of(statuses: &Vec<(&str, &str)>, temp_diff: Option<&str>) -> (r: Vec<String>)
    ensures
        r@.map_values(|n: String| n@) == conflict_notes(statuses_view(statuses@), opt_chars(temp_diff)),
{
    let ghost st = statuses_view(statuses@);
    let ghost td = opt_chars(temp_diff);
    let mut out: Vec<String> = Vec::new();
    let mut i: usize = 0;
    while i < statuses.len()
        invariant
            i <= statuses@.len(),
            st == statuses_view(statuses@),
            td == opt_chars(temp_diff),
            out@.map_values(|n: String| n@) == conflict_notes(st.take(i as int), td),
        decreases statuses@.len() - i,
    {
        proof {
            assert(st.take(i + 1).drop_last() =~= st.take(i as int));
            assert(st.take(i + 1).last() == st[i as int]);
        }
        let (f, s) = statuses[i];
        let ghost before = out@.map_values(|n: String| n@);
        if str_eq(s, "disagree") {
            if str_eq(f, "temperature") {
                if let Some(d) = temp_diff {
                    let mut n = owned("Model temperature differs from observation by ");
                    append(&mut n, d);
                    append(&mut n, "\u{b0}C");
                    out.push(n);
                    proof {
                        assert(out@.map_values(|n: String| n@) =~= before.push(
                            "Model temperature differs from observation by "@ + d@ + "\u{b0}C"@,
                        ));
                    }
                }
            } else if str_eq(f, "dewpoint") {
                out.push(owned("Model dewpoint differs significantly from observation"));
                proof {
                    assert(out@.map_values(|n: String| n@) =~= before.push(
                        "Model dewpoint differs significantly from observation"@,
                    ));
                }
            } else if str_eq(f, "wind_speed") || str_eq(f, "wind_direction") {
                out.push(owned("Model wind differs significantly from observation"));
                proof {
                    assert(out@.map_values(|n: String| n@) =~= before.push(
                        "Model wind differs significantly from observation"@,
                    ));
                }
            }
        }
        i += 1;
    }
    proof {
        assert(st.take(st.len() as int) =~= st);
    }
    out
}

/// `notes` with each run of equal neighbours cut to its first.
pub fn dedup_notes(notes: Vec<String>) -> (r: Vec<String>)
    ensures
        r@.map_values(|n: String| n@) == dedup(notes@.map_values(|n: String| n@)),
{
    let ghost ns = notes@.map_values(|n: String| n@);
    let mut out: Vec<String> = Vec::new();
    let mut i: usize = 0;
    while i < notes.len()
        invariant
            i <= notes@.len(),
            ns == notes@.map_values(|n: String| n@),
            out@.map_values(|n: String| n@) == dedup(ns.take(i as int)),
        decreases notes@.len() - i,
    {
        proof {
            assert(ns.take(i + 1).drop_last() =~= ns.take(i as int));
            assert(ns.take(i + 1).last() == ns[i as int]);
        }
        let ghost before = out@.map_values(|n: String| n@);
        if i == 0 || !str_eq(notes[i].as_str(), notes[i - 1].as_str()) {
            out.push(notes[i].clone());
            proof {
                assert(out@.map_values(|n: String| n@) =~= before.push(ns[i as int]));
                if i == 0 {
                    assert(ns.take(1) =~= seq![ns[0]]);
                    assert(dedup(Seq::<Seq<char>>::empty()) == Seq::<Seq<char>>::empty());
                } else {
                    assert(ns.take(i + 1)[i - 1] == ns[i - 1]);
                }
            }
        } else {
            proof {
                assert(ns.take(i + 1)[i - 1] == ns[i - 1]);
            }
        }
        i += 1;
    }
    proof {
        assert(ns.take(ns.len() as int) =~= ns);
    }
    out
}

/// Appends `note` when `c` holds.
fn push_note_if(notes: &mut Vec<String>, c: bool, note: &str)
    ensures
        final(notes)@.map_values(|n: String| n@) == old(notes)@.map_values(|n: String| n@) + note_if(c, note@),
{
    let ghost before = notes@.map_values(|n: String| n@);
    if c {
        notes.push(owned(note));
        assert(notes@.map_values(|n: String| n@) =~= before + seq![note@]);
    } else {
        assert(before + Seq::<Seq<char>>::empty() =~= before);
    }
}

/// Appends every note of `more`, in order.
fn extend_notes(notes: &mut Vec<String>, more: Vec<String>)
    ensures
        final(notes)@.map_values(|n: String| n@) == old(notes)@.map_values(|n: String| n@) + more@.map_values(
            |n: String| n@,
        ),
{
    let ghost start = notes@.map_values(|n: String| n@);
    let ghost ms = more@.map_values(|n: String| n@);
    let mut i: usize = 0;
    while i < more.len()
        invariant
            i <= more@.len(),
            ms == more@.map_values(|n: String| n@),
            notes@.map_values(|n: String| n@) == start + ms.take(i as int),
        decreases more@.len() - i,
    {
        let ghost before = notes@.map_values(|n: String| n@);
        notes.push(more[i].clone());
        proof {
            assert(notes@.map_values(|n: String| n@) =~= before.push(ms[i as int]));
            assert(start + ms.take(i + 1) =~= (start + ms.take(i as int)).push(ms[i as int]));
        }
        i += 1;
    }
    proof {
        assert(ms.take(ms.len() as int) =~= ms);
    }
}

/// The texts of `events`.
pub open spec fn events_view(events: Seq<String>) -> Seq<Seq<char>> {
    events.map_values(|e: String| e@)
}

/// Whether any of `events` names wind.
fn any_wind_event(events: &Vec<String>) -> (r: bool)
    ensures
        r == exists|i: int| 0 <= i < events@.len() && names_wind(#[trigger] events_view(events@)[i]),
{
    let ghost es = events_view(events@);
    let mut i: usize = 0;
    while i < events.len()
        invariant
            i <= events@.len(),
            es == events_view(events@),
            forall|j: int| 0 <= j < i ==> !names_wind(#[trigger] es[j]),
        decreases events@.len() - i,
    {
        if str_contains(events[i].as_str(), "Wind") || str_contains(events[i].as_str(), "wind") {
            assert(names_wind(es[i as int]));
            return true;
        }
        i += 1;
    }
    false
}

/// What an evidence check concludes: the fields that agree, the fields in
/// conflict, and the notes.
pub struct Assessment {
    pub agreements: Vec<String>,
    pub conflicts: Vec<String>,
    pub notes: Vec<String>,
}

/// The assessment of an evidence check from the status of each compared
/// field, what the observation and the model show (`None` when missing),
/// the formatted temperature difference (given when both temperatures are
/// known) and the events of the active alerts (`None` when they could not
/// be fetched). Equal neighbouring notes appear once.
pub fn generate_assessment(
    statuses: &Vec<(&str, &str)>,
    obs: &Option<ObsFacts>,
    model: &Option<ModelFacts>,
    temp_diff: Option<&str>,
    alerts: &Option<Vec<String>>,
) -> (r: Assessment)
    ensures
        r.agreements@.map_values(|f: String| f@) == fields_with(statuses_view(statuses@), "agree"@),
        r.conflicts@.map_values(|f: String| f@) == fields_with(statuses_view(statuses@), "disagree"@),
        r.notes@.map_values(|n: String| n@) == dedup(
            raw_notes(
                statuses_view(statuses@),
                *obs,
                *model,
                opt_chars(temp_diff),
                match alerts {
                    Some(a) => Some(events_view(a@)),
                    None => None,
                },
            ),
        ),
{
    let ghost st = statuses_view(statuses@);
    let agreements = fields_of(statuses, "agree");
    let conflicts = fields_of(statuses, "disagree");
    let (n_agree, _n_minor, n_dis) = status_counts(statuses);
    let n = statuses.len();
    let has_alerts = match alerts {
        Some(a) => a.len() > 0,
        None => false,
    };
    let (cape_high, cape_none, echo, echo_weak, model_fresh) = match model {
        Some(m) => (m.cape_high, m.cape_none, m.echo, m.echo_weak, m.wind_fresh),
        None => (false, true, false, true, false),
    };
    let (obs_strong, obs_fresh, stale, age) = match obs {
        Some(o) => (o.wind_strong, o.wind_fresh, o.age_minutes > 120, o.age_minutes),
        None => (false, false, false, 0),
    };
    let wind_alert = match alerts {
        Some(a) => any_wind_event(a),
        None => false,
    };
    let mut notes: Vec<String> = Vec::new();
    push_note_if(&mut notes, obs.is_none(), "METAR observation unavailable \u{2014} confidence reduced");
    push_note_if(&mut notes, model.is_none(), "HRRR model data unavailable \u{2014} confidence reduced");
    push_note_if(&mut notes, n > 0 && n_dis == 0 && n_agree == n, "All sources in good agreement");
    push_note_if(&mut notes, n > 0 && n_dis == 0 && n_agree != n, "Sources mostly agree with minor differences");
    extend_notes(&mut notes, conflict_notes_of(statuses, temp_diff));
    push_note_if(&mut notes, obs_strong, "Strong winds confirmed by observation");
    push_note_if(&mut notes, obs_strong && model_fresh, "Strong winds confirmed by both observation and model");
    push_note_if(&mut notes, cape_high && has_alerts, "Instability and active alerts suggest elevated severe risk");
    push_note_if(&mut notes, echo && !has_alerts, "Radar echoes present but no active weather alert");
    push_note_if(
        &mut notes,
        has_alerts && cape_none && echo_weak,
        "Active alert but model shows no instability \u{2014} possible timing/location issue",
    );
    push_note_if(
        &mut notes,
        has_alerts && wind_alert && obs_fresh,
        "Wind advisory/warning consistent with observed conditions",
    );
    let mut stale_note = owned("METAR observation is ");
    push_age(&mut stale_note, age);
    append(&mut stale_note, " minutes old \u{2014} data may be stale");
    push_note_if(&mut notes, stale, stale_note.as_str());
    let ghost raw = notes@.map_values(|n: String| n@);
    proof {
        assert(raw =~= raw_notes(
            st,
            *obs,
            *model,
            opt_chars(temp_diff),
            match alerts {
                Some(a) => Some(events_view(a@)),
                None => None,
            },
        ));
    }
    Assessment { agreements, conflicts, notes: dedup_notes(notes) }
}

/// Appends `x` in decimal (see `int_text`).
fn push_age(s: &mut String, x: i64)
    ensures
        final(s)@ == old(s)@ + int_text(x as int),
{
    if x < 0 {
        append(s, "-");
        push_decimal(s, (0 - (x as i128)) as u64);
    } else {
        push_decimal(s, x as u64);
    }
}

/// Cutting runs keeps the last element.
proof fn lemma_dedup_last(s: Seq<Seq<char>>)
    requires
        s.len() > 0,
    ensures
        dedup(s).len() > 0,
        dedup(s).last() == s.last(),
    decreases s.len(),
{
    if s.len() > 1 {
        lemma_dedup_last(s.drop_last());
    }
}

/// The notes of an assessment never repeat a note right after itself.
pub proof fn law_dedup_no_repeats(s: Seq<Seq<char>>)
    ensures
        forall|i: int| 0 <= i < dedup(s).len() - 1 ==> #[trigger] dedup(s)[i] != dedup(s)[i + 1],
    decreases s.len(),
{
    if s.len() > 1 {
        let t = s.drop_last();
        law_dedup_no_repeats(t);
        lemma_dedup_last(t);
        if s.last() != s[s.len() - 2] {
            let d = dedup(t);
            let r = d.push(s.last());
            assert forall|i: int| 0 <= i < r.len() - 1 implies #[trigger] r[i] != r[i + 1] by {
                if i + 1 < d.len() {
                    assert(r[i] == d[i] && r[i + 1] == d[i + 1]);
                } else {
                    assert(r[i] == d.last());
                    assert(t.last() == s[s.len() - 2]);
                }
            }
        }
    }
}

} // verus!
