use wxcore::briefing::{generate_assessment as briefing_assessment, OutlookRisk};
use wxcore::evidence::{confidence_level, generate_assessment, status_counts, ModelFacts, ObsFacts};

#[test]
fn briefing_assessment_sentences() {
    let text = briefing_assessment(
        &OutlookRisk::Category("slgt".to_string()),
        2,
        1,
        vec!["Strong radar returns (max 55 dBZ) \u{2014} thunderstorms with heavy rain likely.".to_string()],
        Some(20),
        Some(18),
    );
    assert_eq!(
        text,
        "SLIGHT risk (2/5) for severe weather per SPC Day 1 outlook. \
         2 active alert(s), 1 severe-weather related. Check alert details. \
         Strong radar returns (max 55 dBZ) \u{2014} thunderstorms with heavy rain likely. \
         Surface temp/dew spread only 2C \u{2014} very moist boundary layer."
    );
}

#[test]
fn briefing_assessment_quiet_day() {
    assert_eq!(
        briefing_assessment(&OutlookRisk::NoCategory, 0, 0, vec![], Some(10), Some(9)),
        "No SPC risk categories for this point. No active NWS alerts for this location."
    );
    assert_eq!(
        briefing_assessment(&OutlookRisk::Unavailable, 3, 0, vec![], None, Some(9)),
        "SPC outlook data unavailable. 3 active alert(s), none severe-weather related."
    );
    assert_eq!(
        briefing_assessment(&OutlookRisk::Category("Extreme".to_string()), 0, 0, vec![], Some(16), Some(20)),
        "SPC Day 1 risk: Extreme. No active NWS alerts for this location. \
         Surface temp/dew spread only -4C \u{2014} very moist boundary layer."
    );
}

fn calm_obs(age: i64) -> Option<ObsFacts> {
    Some(ObsFacts { wind_strong: false, wind_fresh: false, age_minutes: age })
}

fn quiet_model() -> Option<ModelFacts> {
    Some(ModelFacts { wind_fresh: false, cape_high: false, cape_none: false, echo: false, echo_weak: false })
}

#[test]
fn evidence_all_agree() {
    let statuses = vec![("temperature", "agree"), ("dewpoint", "agree")];
    let a = generate_assessment(&statuses, &calm_obs(30), &quiet_model(), None, &Some(vec![]));
    assert_eq!(a.agreements, vec!["temperature".to_string(), "dewpoint".to_string()]);
    assert!(a.conflicts.is_empty());
    assert_eq!(a.notes, vec!["All sources in good agreement".to_string()]);
    assert_eq!(confidence_level(&statuses, &calm_obs(30), true), "high");
    assert_eq!(confidence_level(&statuses, &calm_obs(180), true), "medium");
}

#[test]
fn evidence_conflicts_and_notes() {
    let statuses = vec![
        ("temperature", "disagree"),
        ("dewpoint", "minor_disagree"),
        ("wind_speed", "disagree"),
        ("wind_direction", "disagree"),
    ];
    let obs = Some(ObsFacts { wind_strong: true, wind_fresh: true, age_minutes: 150 });
    let model = Some(ModelFacts { wind_fresh: true, cape_high: true, cape_none: false, echo: false, echo_weak: false });
    let a = generate_assessment(&statuses, &obs, &model, Some("3.4"), &Some(vec!["High Wind Warning".to_string()]));
    assert_eq!(a.conflicts, vec!["temperature".to_string(), "wind_speed".to_string(), "wind_direction".to_string()]);
    assert_eq!(
        a.notes,
        vec![
            "Model temperature differs from observation by 3.4\u{b0}C".to_string(),
            "Model wind differs significantly from observation".to_string(),
            "Strong winds confirmed by observation".to_string(),
            "Strong winds confirmed by both observation and model".to_string(),
            "Instability and active alerts suggest elevated severe risk".to_string(),
            "Wind advisory/warning consistent with observed conditions".to_string(),
            "METAR observation is 150 minutes old \u{2014} data may be stale".to_string(),
        ]
    );
    assert_eq!(status_counts(&statuses), (0, 1, 3));
    assert_eq!(confidence_level(&statuses, &obs, true), "low");
}

#[test]
fn evidence_missing_sources() {
    let statuses: Vec<(&str, &str)> = vec![];
    let a = generate_assessment(&statuses, &None, &None, None, &Some(vec!["Tornado Warning".to_string()]));
    assert_eq!(
        a.notes,
        vec![
            "METAR observation unavailable \u{2014} confidence reduced".to_string(),
            "HRRR model data unavailable \u{2014} confidence reduced".to_string(),
            "Active alert but model shows no instability \u{2014} possible timing/location issue".to_string(),
        ]
    );
    assert_eq!(confidence_level(&statuses, &None, false), "low");
    let minor = vec![("temperature", "minor_disagree"), ("dewpoint", "minor_disagree")];
    assert_eq!(confidence_level(&minor, &calm_obs(10), true), "medium");
}
