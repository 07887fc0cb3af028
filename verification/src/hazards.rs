//! Hazard overview: the category of an alert, the overall threat level and
//! the one-line summary of active categories.
use vstd::prelude::*;
use crate::text::{append, contains_seq, decimal, join, owned, push_decimal, str_contains, str_eq, to_upper, unicode_upper};

verus! {

/// The hazard category of an alert event named `e` (in upper case).
pub open spec fn hazard_category(e: Seq<char>) -> Seq<char> {
    if contains_seq(e, "FIRE"@) || contains_seq(e, "RED FLAG"@) {
        "fire_weather"@
    } else if contains_seq(e, "TORNADO"@) {
        "tornado"@
    } else if contains_seq(e, "THUNDERSTORM"@) || contains_seq(e, "LIGHTNING"@) {
        "thunderstorm"@
    } else if contains_seq(e, "HURRICANE"@) || contains_seq(e, "TROPICAL"@) {
        "tropical"@
    } else if contains_seq(e, "FLOOD"@) || contains_seq(e, "FLASH"@) {
        "flooding"@
    } else if contains_seq(e, "WINTER"@) || contains_seq(e, "ICE"@) || contains_seq(e, "BLIZZARD"@)
        || contains_seq(e, "FREEZE"@) || contains_seq(e, "FROST"@) || contains_seq(e, "WIND CHILL"@)
        || contains_seq(e, "SNOW"@) {
        "winter"@
    } else if contains_seq(e, "MARINE"@) || contains_seq(e, "SMALL CRAFT"@) || contains_seq(
        e,
        "COASTAL"@,
    ) || contains_seq(e, "RIP CURRENT"@) || contains_seq(e, "SURF"@) {
        "marine"@
    } else if contains_seq(e, "WIND"@) || contains_seq(e, "GALE"@) || contains_seq(e, "HIGH WIND"@) {
        "wind"@
    } else {
        "other"@
    }
}

/// The hazard category of an event name already in upper case.
pub fn category_of_upper(e: &str) -> (r: &'static str)
    ensures
        r@ == hazard_category(e@),
{
    if str_contains(e, "FIRE") || str_contains(e, "RED FLAG") {
        "fire_weather"
    } else if str_contains(e, "TORNADO") {
        "tornado"
    } else if str_contains(e, "THUNDERSTORM") || str_contains(e, "LIGHTNING") {
        "thunderstorm"
    } else if str_contains(e, "HURRICANE") || str_contains(e, "TROPICAL") {
        "tropical"
    } else if str_contains(e, "FLOOD") || str_contains(e, "FLASH") {
        "flooding"
    } else if str_contains(e, "WINTER") || str_contains(e, "ICE") || str_contains(e, "BLIZZARD")
        || str_contains(e, "FREEZE") || str_contains(e, "FROST") || str_contains(e, "WIND CHILL")
        || str_contains(e, "SNOW") {
        "winter"
    } else if str_contains(e, "MARINE") || str_contains(e, "SMALL CRAFT") || str_contains(e, "COASTAL")
        || str_contains(e, "RIP CURRENT") || str_contains(e, "SURF") {
        "marine"
    } else if str_contains(e, "WIND") || str_contains(e, "GALE") || str_contains(e, "HIGH WIND") {
        "wind"
    } else {
        "other"
    }
}

/// The hazard category of an alert event, matched without regard to case.
pub fn categorize_event(event: &str) -> (r: &'static str)
    ensures
        r@ == hazard_category(unicode_upper(event@)),
{
    let e = to_upper(event);
    category_of_upper(e.as_str())
}

/// The categories in their order of precedence: an (upper-case) event
/// falls in the first category one of whose words it names, fire weather
/// (FIRE, RED FLAG), tornado, thunderstorm (THUNDERSTORM, LIGHTNING),
/// tropical (HURRICANE, TROPICAL), flooding (FLOOD, FLASH), winter
/// (WINTER, ICE, BLIZZARD, FREEZE, FROST, WIND CHILL, SNOW), marine
/// (MARINE, SMALL CRAFT, COASTAL, RIP CURRENT, SURF), wind (WIND, GALE,
/// HIGH WIND), and otherwise "other" when it names none of these words.
pub proof fn law_category_precedence(e: Seq<char>)
    ensures
        contains_seq(e, "FIRE"@) || contains_seq(e, "RED FLAG"@) ==> hazard_category(e) == "fire_weather"@,
        !contains_seq(e, "FIRE"@) && !contains_seq(e, "RED FLAG"@) && contains_seq(e, "TORNADO"@)
            ==> hazard_category(e) == "tornado"@,
        !contains_seq(e, "FIRE"@) && !contains_seq(e, "RED FLAG"@) && !contains_seq(e, "TORNADO"@) && (
        contains_seq(e, "THUNDERSTORM"@) || contains_seq(e, "LIGHTNING"@)) ==> hazard_category(e)
            == "thunderstorm"@,
        !contains_seq(e, "FIRE"@) && !contains_seq(e, "RED FLAG"@) && !contains_seq(e, "TORNADO"@)
            && !contains_seq(e, "THUNDERSTORM"@) && !contains_seq(e, "LIGHTNING"@) && (contains_seq(
            e,
            "HURRICANE"@,
        ) || contains_seq(e, "TROPICAL"@)) ==> hazard_category(e) == "tropical"@,
        !contains_seq(e, "FIRE"@) && !contains_seq(e, "RED FLAG"@) && !contains_seq(e, "TORNADO"@)
            && !contains_seq(e, "THUNDERSTORM"@) && !contains_seq(e, "LIGHTNING"@) && !contains_seq(
            e,
            "HURRICANE"@,
        ) && !contains_seq(e, "TROPICAL"@) && (contains_seq(e, "FLOOD"@) || contains_seq(e, "FLASH"@))
            ==> hazard_category(e) == "flooding"@,
        !contains_seq(e, "FIRE"@) && !contains_seq(e, "RED FLAG"@) && !contains_seq(e, "TORNADO"@)
            && !contains_seq(e, "THUNDERSTORM"@) && !contains_seq(e, "LIGHTNING"@) && !contains_seq(
            e,
            "HURRICANE"@,
        ) && !contains_seq(e, "TROPICAL"@) && !contains_seq(e, "FLOOD"@) && !contains_seq(e, "FLASH"@)
            && (contains_seq(e, "WINTER"@) || contains_seq(e, "ICE"@) || contains_seq(e, "BLIZZARD"@)
            || contains_seq(e, "FREEZE"@) || contains_seq(e, "FROST"@) || contains_seq(e, "WIND CHILL"@)
            || contains_seq(e, "SNOW"@)) ==> hazard_category(e) == "winter"@,
        !contains_seq(e, "FIRE"@) && !contains_seq(e, "RED FLAG"@) && !contains_seq(e, "TORNADO"@)
            && !contains_seq(e, "THUNDERSTORM"@) && !contains_seq(e, "LIGHTNING"@) && !contains_seq(
            e,
            "HURRICANE"@,
        ) && !contains_seq(e, "TROPICAL"@) && !contains_seq(e, "FLOOD"@) && !contains_seq(e, "FLASH"@)
            && !contains_seq(e, "WINTER"@) && !contains_seq(e, "ICE"@) && !contains_seq(e, "BLIZZARD"@)
            && !contains_seq(e, "FREEZE"@) && !contains_seq(e, "FROST"@) && !contains_seq(e, "WIND CHILL"@)
            && !contains_seq(e, "SNOW"@) && (contains_seq(e, "MARINE"@) || contains_seq(e, "SMALL CRAFT"@)
            || contains_seq(e, "COASTAL"@) || contains_seq(e, "RIP CURRENT"@) || contains_seq(e, "SURF"@))
            ==> hazard_category(e) == "marine"@,
        !contains_seq(e, "FIRE"@) && !contains_seq(e, "RED FLAG"@) && !contains_seq(e, "TORNADO"@)
            && !contains_seq(e, "THUNDERSTORM"@) && !contains_seq(e, "LIGHTNING"@) && !contains_seq(
            e,
            "HURRICANE"@,
        ) && !contains_seq(e, "TROPICAL"@) && !contains_seq(e, "FLOOD"@) && !contains_seq(e, "FLASH"@)
            && !contains_seq(e, "WINTER"@) && !contains_seq(e, "ICE"@) && !contains_seq(e, "BLIZZARD"@)
            && !contains_seq(e, "FREEZE"@) && !contains_seq(e, "FROST"@) && !contains_seq(e, "WIND CHILL"@)
            && !contains_seq(e, "SNOW"@) && !contains_seq(e, "MARINE"@) && !contains_seq(e, "SMALL CRAFT"@)
            && !contains_seq(e, "COASTAL"@) && !contains_seq(e, "RIP CURRENT"@) && !contains_seq(e, "SURF"@)
            && (contains_seq(e, "WIND"@) || contains_seq(e, "GALE"@) || contains_seq(e, "HIGH WIND"@))
            ==> hazard_category(e) == "wind"@,
        !contains_seq(e, "FIRE"@) && !contains_seq(e, "RED FLAG"@) && !contains_seq(e, "TORNADO"@)
            && !contains_seq(e, "THUNDERSTORM"@) && !contains_seq(e, "LIGHTNING"@) && !contains_seq(
            e,
            "HURRICANE"@,
        ) && !contains_seq(e, "TROPICAL"@) && !contains_seq(e, "FLOOD"@) && !contains_seq(e, "FLASH"@)
            && !contains_seq(e, "WINTER"@) && !contains_seq(e, "ICE"@) && !contains_seq(e, "BLIZZARD"@)
            && !contains_seq(e, "FREEZE"@) && !contains_seq(e, "FROST"@) && !contains_seq(e, "WIND CHILL"@)
            && !contains_seq(e, "SNOW"@) && !contains_seq(e, "MARINE"@) && !contains_seq(e, "SMALL CRAFT"@)
            && !contains_seq(e, "COASTAL"@) && !contains_seq(e, "RIP CURRENT"@) && !contains_seq(e, "SURF"@)
            && !contains_seq(e, "WIND"@) && !contains_seq(e, "GALE"@) && !contains_seq(e, "HIGH WIND"@)
            ==> hazard_category(e) == "other"@,
{
}

/// How severe an alert is.
#[derive(Clone, Copy, Debug, PartialEq, Eq, Structural)]
pub enum Severity {
    Extreme,
    Severe,
    Moderate,
    Minor,
    Unknown,
}

/// The level of a severity: 4 for extreme down to 1 for minor or unknown.
pub open spec fn severity_level(s: Severity) -> int {
    match s {
        Severity::Extreme => 4,
        Severity::Severe => 3,
        Severity::Moderate => 2,
        Severity::Minor => 1,
        Severity::Unknown => 1,
    }
}

/// The highest level among `s` (0 for none).
pub open spec fn max_level(s: Seq<Severity>) -> int
    decreases s.len(),
{
    if s.len() == 0 {
        0
    } else {
        let m = max_level(s.drop_last());
        let l = severity_level(s.last());
        if l > m {
            l
        } else {
            m
        }
    }
}

/// The threat level of a set of alerts: "none" without alerts, else named
/// after the most severe one.
pub open spec fn threat_level(s: Seq<Severity>) -> Seq<char> {
    if s.len() == 0 {
        "none"@
    } else {
        let m = max_level(s);
        if m == 4 {
            "extreme"@
        } else if m == 3 {
            "high"@
        } else if m == 2 {
            "moderate"@
        } else {
            "low"@
        }
    }
}

/// The overall threat level of the active alerts, given their severities.
pub fn compute_threat_level(severities: &Vec<Severity>) -> (r: &'static str)
    ensures
        r@ == threat_level(severities@),
{
    if severities.len() == 0 {
        return "none";
    }
    let mut max: u8 = 0;
    let mut i: usize = 0;
    while i < severities.len()
        invariant
            i <= severities.len(),
            max as int == max_level(severities@.take(i as int)),
            max <= 4,
        decreases severities.len() - i,
    {
        proof {
            assert(severities@.take(i + 1).drop_last() =~= severities@.take(i as int));
        }
        let level: u8 = match severities[i] {
            Severity::Extreme => 4,
            Severity::Severe => 3,
            Severity::Moderate => 2,
            Severity::Minor => 1,
            Severity::Unknown => 1,
        };
        if level > max {
            max = level;
        }
        i += 1;
    }
    proof {
        assert(severities@.take(severities.len() as int) =~= severities@);
    }
    match max {
        4 => "extreme",
        3 => "high",
        2 => "moderate",
        _ => "low",
    }
}

/// The hazard categories, in the order the overview lists them.
pub const CATEGORY_NAMES: [&'static str; 9] = [
    "fire_weather",
    "winter",
    "flooding",
    "wind",
    "thunderstorm",
    "tornado",
    "tropical",
    "marine",
    "other",
];

/// How many of `cats` are `name`.
pub open spec fn count_of(cats: Seq<Seq<char>>, name: Seq<char>) -> nat
    decreases cats.len(),
{
    if cats.len() == 0 {
        0
    } else {
        count_of(cats.drop_last(), name) + (if cats.last() == name { 1nat } else { 0nat })
    }
}

/// "name (count)" for each category from the `k`-th on that has alerts.
pub open spec fn active_items(cats: Seq<Seq<char>>, k: int) -> Seq<Seq<char>>
    decreases 9 - k,
{
    if k < 0 || k >= 9 {
        Seq::empty()
    } else {
        let name = CATEGORY_NAMES[k]@;
        let n = count_of(cats, name);
        (if n > 0 {
            seq![name + " ("@ + decimal(n) + ")"@]
        } else {
            Seq::empty()
        }) + active_items(cats, k + 1)
    }
}

/// The summary line for alerts in categories `cats`.
pub open spec fn hazard_summary_text(cats: Seq<Seq<char>>) -> Seq<char> {
    let items = active_items(cats, 0);
    if items.len() == 0 {
        "No active hazards"@
    } else {
        "Active hazards: "@ + join(items, ", "@)
    }
}

/// How many of `cats` are `name`.
fn count_category(cats: &Vec<&str>, name: &str) -> (r: u64)
    requires
        cats@.len() <= u64::MAX,
    ensures
        r as nat == count_of(cats@.map_values(|c: &str| c@), name@),
{
    let ghost cs = cats@.map_values(|c: &str| c@);
    let mut n: u64 = 0;
    let mut i: usize = 0;
    while i < cats.len()
        invariant
            i <= cats.len(),
            cats@.len() <= u64::MAX,
            cs == cats@.map_values(|c: &str| c@),
            n as nat == count_of(cs.take(i as int), name@),
            n <= i,
        decreases cats.len() - i,
    {
        proof {
            assert(cs.take(i + 1).drop_last() =~= cs.take(i as int));
            assert(cs.take(i + 1).last() == cats@[i as int]@);
        }
        if str_eq(cats[i], name) {
            n += 1;
        }
        i += 1;
    }
    proof {
        assert(cs.take(cats.len() as int) =~= cs);
    }
    n
}

/// The overview's summary line, given the category of each active alert:
/// "Active hazards: " and, for each category with alerts in overview order,
/// its name and count; or "No active hazards".
pub fn hazard_summary(categories: &Vec<&str>) -> (r: String)
    requires
        categories@.len() <= u64::MAX,
    ensures
        r@ == hazard_summary_text(categories@.map_values(|c: &str| c@)),
{
    let ghost cs = categories@.map_values(|c: &str| c@);
    let mut joined = String::new();
    let mut any = false;
    let mut k: usize = 0;
    let ghost mut done: Seq<Seq<char>> = Seq::empty();
    assert(active_items(cs, 0) == done + active_items(cs, 0));
    while k < 9
        invariant
            k <= 9,
            cs == categories@.map_values(|c: &str| c@),
            categories@.len() <= u64::MAX,
            active_items(cs, 0) == done + active_items(cs, k as int),
            any == (done.len() > 0),
            joined@ == join(done, ", "@),
        decreases 9 - k,
    {
        let name = CATEGORY_NAMES[k];
        let n = count_category(categories, name);
        let ghost item = name@ + " ("@ + decimal(n as nat) + ")"@;
        if n > 0 {
            if any {
                append(&mut joined, ", ");
            }
            append(&mut joined, name);
            append(&mut joined, " (");
            push_decimal(&mut joined, n);
            append(&mut joined, ")");
            proof {
                assert(active_items(cs, k as int) == seq![item] + active_items(cs, k + 1));
                assert(done + active_items(cs, k as int) =~= done.push(item) + active_items(cs, k + 1));
                assert(done.push(item).drop_last() =~= done);
                if done.len() > 0 {
                    assert(join(done.push(item), ", "@) == join(done, ", "@) + ", "@ + item);
                } else {
                    assert(join(done.push(item), ", "@) == item);
                }
                done = done.push(item);
            }
            any = true;
        } else {
            proof {
                assert(active_items(cs, k as int) =~= active_items(cs, k + 1));
            }
        }
        k += 1;
    }
    proof {
        assert(active_items(cs, 9) =~= Seq::<Seq<char>>::empty());
        assert(done + Seq::<Seq<char>>::empty() =~= done);
    }
    if !any {
        return owned("No active hazards");
    }
    let mut out = owned("Active hazards: ");
    append(&mut out, joined.as_str());
    out
}

/// How many of `severities` are severe or extreme.
pub open spec fn severe_count_of(severities: Seq<Severity>) -> nat
    decreases severities.len(),
{
    if severities.len() == 0 {
        0
    } else {
        severe_count_of(severities.drop_last()) + if severities.last() == Severity::Severe
            || severities.last() == Severity::Extreme {
            1nat
        } else {
            0nat
        }
    }
}

/// How many alerts are severe or extreme (see `severe_count_of`).
pub fn severe_count(severities: &Vec<Severity>) -> (r: usize)
    ensures
        r == severe_count_of(severities@),
{
    let mut n: usize = 0;
    let mut i: usize = 0;
    while i < severities.len()
        invariant
            i <= severities@.len(),
            n == severe_count_of(severities@.take(i as int)),
            n <= i,
        decreases severities@.len() - i,
    {
        proof {
            assert(severities@.take(i + 1).drop_last() =~= severities@.take(i as int));
            assert(severities@.take(i + 1).last() == severities@[i as int]);
        }
        match severities[i] {
            Severity::Severe | Severity::Extreme => {
                n += 1;
            },
            _ => {},
        }
        i += 1;
    }
    assert(severities@.take(severities@.len() as int) =~= severities@);
    n
}

/// The overall status of a watch-box check from whether the reflectivity
/// threshold was exceeded and whether alerts are active.
pub open spec fn watch_status_of(exceeded: bool, alerts_active: bool) -> Seq<char> {
    if exceeded && alerts_active {
        "ALERT \u{2014} threshold exceeded AND active alerts"@
    } else if exceeded {
        "WARNING \u{2014} reflectivity threshold exceeded"@
    } else if alerts_active {
        "WATCH \u{2014} active alerts but below reflectivity threshold"@
    } else {
        "CLEAR \u{2014} no exceedances"@
    }
}

/// The overall status of a watch-box check (see `watch_status_of`).
pub fn watch_status(exceeded: bool, alerts_active: bool) -> (r: &'static str)
    ensures
        r@ == watch_status_of(exceeded, alerts_active),
{
    if exceeded && alerts_active {
        "ALERT \u{2014} threshold exceeded AND active alerts"
    } else if exceeded {
        "WARNING \u{2014} reflectivity threshold exceeded"
    } else if alerts_active {
        "WATCH \u{2014} active alerts but below reflectivity threshold"
    } else {
        "CLEAR \u{2014} no exceedances"
    }
}

} // verus!
