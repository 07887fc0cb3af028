//! The plain-text threat assessment of a location briefing: the SPC risk,
//! the active alerts, what the radar shows and the surface moisture, one
//! sentence each.
use vstd::prelude::*;
use crate::text::{
    append, decimal, join, join_strings, owned, push_decimal, str_eq, to_upper, unicode_upper,
};

verus! {

/// What the SPC Day 1 outlook says at the point.
pub enum OutlookRisk {
    /// The risk category named at the point, as given (e.g. "SLGT").
    Category(String),
    /// The outlook could not be read.
    Unavailable,
    /// The outlook names no category at the point.
    NoCategory,
}

/// The sentence for an SPC risk category, matched without regard to case.
pub open spec fn risk_sentence(risk: Seq<char>) -> Seq<char> {
    let u = unicode_upper(risk);
    if u == "TSTM"@ || u == "GENERAL THUNDER"@ {
        "General thunderstorm risk per SPC Day 1 outlook."@
    } else if u == "MRGL"@ || u == "MARGINAL"@ {
        "MARGINAL risk (1/5) for severe weather per SPC Day 1 outlook."@
    } else if u == "SLGT"@ || u == "SLIGHT"@ {
        "SLIGHT risk (2/5) for severe weather per SPC Day 1 outlook."@
    } else if u == "ENH"@ || u == "ENHANCED"@ {
        "ENHANCED risk (3/5) for severe weather per SPC Day 1 outlook. Elevated threat."@
    } else if u == "MDT"@ || u == "MODERATE"@ {
        "MODERATE risk (4/5) for severe weather per SPC Day 1 outlook. Significant severe weather likely."@
    } else if u == "HIGH"@ {
        "HIGH risk (5/5) for severe weather per SPC Day 1 outlook. PARTICULARLY DANGEROUS SITUATION."@
    } else {
        "SPC Day 1 risk: "@ + risk + "."@
    }
}

/// The sentence for the outlook.
pub open spec fn outlook_sentence(o: OutlookRisk) -> Seq<char> {
    match o {
        OutlookRisk::Category(r) => risk_sentence(r@),
        OutlookRisk::Unavailable => "SPC outlook data unavailable."@,
        OutlookRisk::NoCategory => "No SPC risk categories for this point."@,
    }
}

/// Each SPC category has one sentence, whether it is given by its
/// abbreviation or by its name, in any case: "TSTM" as "GENERAL THUNDER",
/// "MRGL" as "MARGINAL", "SLGT" as "SLIGHT", "ENH" as "ENHANCED", "MDT"
/// as "MODERATE"; "HIGH" has its own. Any other category is named as
/// given.
pub proof fn law_risk_abbreviations(risk: Seq<char>)
    ensures
        unicode_upper(risk) == "TSTM"@ || unicode_upper(risk) == "GENERAL THUNDER"@
            ==> risk_sentence(risk) == "General thunderstorm risk per SPC Day 1 outlook."@,
        unicode_upper(risk) == "MRGL"@ || unicode_upper(risk) == "MARGINAL"@
            ==> risk_sentence(risk) == "MARGINAL risk (1/5) for severe weather per SPC Day 1 outlook."@,
        unicode_upper(risk) == "SLGT"@ || unicode_upper(risk) == "SLIGHT"@
            ==> risk_sentence(risk) == "SLIGHT risk (2/5) for severe weather per SPC Day 1 outlook."@,
        unicode_upper(risk) == "ENH"@ || unicode_upper(risk) == "ENHANCED"@ ==> risk_sentence(risk)
            == "ENHANCED risk (3/5) for severe weather per SPC Day 1 outlook. Elevated threat."@,
        unicode_upper(risk) == "MDT"@ || unicode_upper(risk) == "MODERATE"@ ==> risk_sentence(risk)
            == "MODERATE risk (4/5) for severe weather per SPC Day 1 outlook. Significant severe weather likely."@,
        unicode_upper(risk) == "HIGH"@ ==> risk_sentence(risk)
            == "HIGH risk (5/5) for severe weather per SPC Day 1 outlook. PARTICULARLY DANGEROUS SITUATION."@,
        !(unicode_upper(risk) == "TSTM"@ || unicode_upper(risk) == "GENERAL THUNDER"@ || unicode_upper(risk)
            == "MRGL"@ || unicode_upper(risk) == "MARGINAL"@ || unicode_upper(risk) == "SLGT"@
            || unicode_upper(risk) == "SLIGHT"@ || unicode_upper(risk) == "ENH"@ || unicode_upper(risk)
            == "ENHANCED"@ || unicode_upper(risk) == "MDT"@ || unicode_upper(risk) == "MODERATE"@
            || unicode_upper(risk) == "HIGH"@) ==> risk_sentence(risk) == "SPC Day 1 risk: "@ + risk + "."@,
{
    reveal_strlit("TSTM");
    reveal_strlit("GENERAL THUNDER");
    reveal_strlit("MRGL");
    reveal_strlit("MARGINAL");
    reveal_strlit("SLGT");
    reveal_strlit("SLIGHT");
    reveal_strlit("ENH");
    reveal_strlit("ENHANCED");
    reveal_strlit("MDT");
    reveal_strlit("MODERATE");
    reveal_strlit("HIGH");
    assert("TSTM"@.len() == 4 && "MRGL"@.len() == 4 && "SLGT"@.len() == 4 && "HIGH"@.len() == 4);
    assert("ENH"@.len() == 3 && "MDT"@.len() == 3 && "SLIGHT"@.len() == 6);
    assert("MARGINAL"@.len() == 8 && "ENHANCED"@.len() == 8 && "MODERATE"@.len() == 8);
    assert("GENERAL THUNDER"@.len() == 15);
    assert("TSTM"@[0] != "MRGL"@[0] && "TSTM"@[0] != "SLGT"@[0] && "TSTM"@[0] != "HIGH"@[0]);
    assert("MRGL"@[0] != "SLGT"@[0] && "MRGL"@[0] != "HIGH"@[0] && "SLGT"@[0] != "HIGH"@[0]);
    assert("ENH"@[0] != "MDT"@[0]);
    assert("MARGINAL"@[0] != "ENHANCED"@[0] && "ENHANCED"@[0] != "MODERATE"@[0]);
    assert("MARGINAL"@[1] != "MODERATE"@[1]);
}

/// The sentence for `total` active alerts of which `severe` are related to
/// severe weather.
pub open spec fn alerts_sentence(total: u64, severe: u64) -> Seq<char> {
    if total > 0 {
        if severe > 0 {
            decimal(total as nat) + " active alert(s), "@ + decimal(severe as nat)
                + " severe-weather related. Check alert details."@
        } else {
            decimal(total as nat) + " active alert(s), none severe-weather related."@
        }
    } else {
        "No active NWS alerts for this location."@
    }
}

/// `x` in decimal, with a leading '-' when negative.
pub open spec fn int_text(x: int) -> Seq<char> {
    if x < 0 {
        "-"@ + decimal((-x) as nat)
    } else {
        decimal(x as nat)
    }
}

/// The moisture sentence: given when the temperature and dew point (C) are
/// both known, the temperature is above 15 and the spread is at most 3.
pub open spec fn moisture_sentence(temp_c: Option<i64>, dewpoint_c: Option<i64>) -> Seq<Seq<char>> {
    match (temp_c, dewpoint_c) {
        (Some(t), Some(d)) => if t - d <= 3 && t > 15 {
            seq!["Surface temp/dew spread only "@ + int_text(t - d) + "C \u{2014} very moist boundary layer."@]
        } else {
            Seq::empty()
        },
        _ => Seq::empty(),
    }
}

/// The sentences of the assessment in order: outlook, alerts, the radar
/// notes as given, moisture.
pub open spec fn assessment_parts(
    o: OutlookRisk,
    total: u64,
    severe: u64,
    radar: Seq<Seq<char>>,
    temp_c: Option<i64>,
    dewpoint_c: Option<i64>,
) -> Seq<Seq<char>> {
    seq![outlook_sentence(o), alerts_sentence(total, severe)] + radar + moisture_sentence(temp_c, dewpoint_c)
}

/// The assessment text: its sentences joined by spaces.
pub open spec fn assessment_text(parts: Seq<Seq<char>>) -> Seq<char> {
    if parts.len() == 0 {
        "Insufficient data for assessment."@
    } else {
        join(parts, " "@)
    }
}

/// The sentence for the outlook (see `outlook_sentence`).
fn outlook_text(o: &OutlookRisk) -> (r: String)
    ensures
        r@ == outlook_sentence(*o),
{
    match o {
        OutlookRisk::Category(risk) => {
            let u = to_upper(risk.as_str());
            let s = u.as_str();
            if str_eq(s, "TSTM") || str_eq(s, "GENERAL THUNDER") {
                owned("General thunderstorm risk per SPC Day 1 outlook.")
            } else if str_eq(s, "MRGL") || str_eq(s, "MARGINAL") {
                owned("MARGINAL risk (1/5) for severe weather per SPC Day 1 outlook.")
            } else if str_eq(s, "SLGT") || str_eq(s, "SLIGHT") {
                owned("SLIGHT risk (2/5) for severe weather per SPC Day 1 outlook.")
            } else if str_eq(s, "ENH") || str_eq(s, "ENHANCED") {
                owned("ENHANCED risk (3/5) for severe weather per SPC Day 1 outlook. Elevated threat.")
            } else if str_eq(s, "MDT") || str_eq(s, "MODERATE") {
                owned(
                    "MODERATE risk (4/5) for severe weather per SPC Day 1 outlook. Significant severe weather likely.",
                )
            } else if str_eq(s, "HIGH") {
                owned(
                    "HIGH risk (5/5) for severe weather per SPC Day 1 outlook. PARTICULARLY DANGEROUS SITUATION.",
                )
            } else {
                let mut t = owned("SPC Day 1 risk: ");
                append(&mut t, risk.as_str());
                append(&mut t, ".");
                t
            }
        },
        OutlookRisk::Unavailable => owned("SPC outlook data unavailable."),
        OutlookRisk::NoCategory => owned("No SPC risk categories for this point."),
    }
}

/// The sentence for the alerts (see `alerts_sentence`).
fn alerts_text(total: u64, severe: u64) -> (r: String)
    ensures
        r@ == alerts_sentence(total, severe),
{
    if total > 0 {
        let mut t = String::new();
        assert(t@ =~= Seq::<char>::empty());
        push_decimal(&mut t, total);
        if severe > 0 {
            append(&mut t, " active alert(s), ");
            push_decimal(&mut t, severe);
            append(&mut t, " severe-weather related. Check alert details.");
        } else {
            append(&mut t, " active alert(s), none severe-weather related.");
        }
        t
    } else {
        owned("No active NWS alerts for this location.")
    }
}

/// Appends `x` in decimal (see `int_text`).
fn push_int(s: &mut String, x: i128)
    requires
        -0x1_0000_0000_0000_0000 < x < 0x1_0000_0000_0000_0000,
    ensures
        final(s)@ == old(s)@ + int_text(x as int),
{
    if x < 0 {
        append(s, "-");
        push_decimal(s, (0 - x) as u64);
    } else {
        push_decimal(s, x as u64);
    }
}

/// The plain-text threat assessment of a briefing: the outlook, the
/// alerts (`total` active, `severe` of them severe-weather related), the
/// radar notes in order, and the surface moisture, joined by spaces.
pub fn generate_assessment(
    outlook: &OutlookRisk,
    total: u64,
    severe: u64,
    radar_notes: Vec<String>,
    temp_c: Option<i64>,
    dewpoint_c: Option<i64>,
) -> (r: String)
    ensures
        r@ == assessment_text(
            assessment_parts(*outlook, total, severe, radar_notes@.map_values(|s: String| s@), temp_c, dewpoint_c),
        ),
{
    let ghost radar = radar_notes@.map_values(|s: String| s@);
    let mut parts: Vec<String> = Vec::new();
    parts.push(outlook_text(outlook));
    parts.push(alerts_text(total, severe));
    let ghost head = parts@.map_values(|s: String| s@);
    let mut i: usize = 0;
    while i < radar_notes.len()
        invariant
            i <= radar_notes@.len(),
            radar == radar_notes@.map_values(|s: String| s@),
            parts@.map_values(|s: String| s@) == head + radar.take(i as int),
        decreases radar_notes@.len() - i,
    {
        let ghost before = parts@.map_values(|s: String| s@);
        parts.push(radar_notes[i].clone());
        proof {
            assert(radar.take(i + 1) =~= radar.take(i as int).push(radar[i as int]));
            assert(parts@.map_values(|s: String| s@) =~= before.push(radar[i as int]));
        }
        i += 1;
    }
    proof {
        assert(radar.take(radar.len() as int) =~= radar);
    }
    if let (Some(t), Some(d)) = (temp_c, dewpoint_c) {
        let spread: i128 = t as i128 - d as i128;
        if spread <= 3 && t > 15 {
            let ghost before = parts@.map_values(|s: String| s@);
            let mut m = owned("Surface temp/dew spread only ");
            push_int(&mut m, spread);
            append(&mut m, "C \u{2014} very moist boundary layer.");
            parts.push(m);
            proof {
                assert(parts@.map_values(|s: String| s@) =~= before.push(
                    "Surface temp/dew spread only "@ + int_text(t - d) + "C \u{2014} very moist boundary layer."@,
                ));
            }
        }
    }
    let ghost all = parts@.map_values(|s: String| s@);
    assert(all =~= assessment_parts(*outlook, total, severe, radar, temp_c, dewpoint_c));
    if parts.len() == 0 {
        owned("Insufficient data for assessment.")
    } else {
        join_strings(&parts, " ")
    }
}

} // verus!
