use wxcore::cmd_download;
use wxcore::cmd_help;
use wxcore::events::{event_allowed, EventFilter, EventKind};

#[test]
fn event_type_names() {
    assert_eq!(EventKind::ModelRun.event_type(), "model_run");
    assert_eq!(EventKind::Alert.event_type(), "alert");
    assert_eq!(EventKind::Radar.event_type(), "radar");
    assert_eq!(EventKind::Heartbeat.event_type(), "heartbeat");
}

#[test]
fn default_filter_allows_every_kind() {
    let f = EventFilter { types: None };
    let allowed = f.allowed_types();
    assert_eq!(allowed, vec!["model_run", "alert", "radar", "heartbeat"]);
    for k in [EventKind::ModelRun, EventKind::Alert, EventKind::Radar, EventKind::Heartbeat] {
        assert!(event_allowed(&allowed, k.event_type()));
    }
}

#[test]
fn filter_entries_are_trimmed() {
    let f = EventFilter { types: Some(" radar , alert".to_string()) };
    let allowed = f.allowed_types();
    assert_eq!(allowed, vec!["radar", "alert"]);
    assert!(event_allowed(&allowed, "radar"));
    assert!(!event_allowed(&allowed, "heartbeat"));
}

#[test]
fn filter_all_allows_anything() {
    let f = EventFilter { types: Some("all".to_string()) };
    assert!(event_allowed(&f.allowed_types(), "model_run"));
    let empty = EventFilter { types: Some(String::new()) };
    assert_eq!(empty.allowed_types(), vec![""]);
    assert!(!event_allowed(&empty.allowed_types(), "alert"));
}

#[test]
fn help_lists_every_command() {
    let h = cmd_help::run("1.2.3");
    assert_eq!(h.name, "wx-pro");
    assert_eq!(h.version, "1.2.3");
    assert_eq!(h.output_format, "JSON");
    assert_eq!(h.commands.len(), 28);
    assert_eq!(h.commands[0].name, "models");
    assert_eq!(h.commands[27].name, "commands");
    let names: Vec<&str> = h.commands.iter().map(|c| c.name).collect();
    for n in ["scan", "tiles", "timeseries", "evidence", "radar-image", "model-image"] {
        assert!(names.contains(&n), "missing {}", n);
    }
    let storm = h.commands.iter().find(|c| c.name == "storm-analysis").unwrap();
    let frames = storm.args.iter().find(|a| a.name == "--frames").unwrap();
    assert_eq!(frames.default, Some("3"));
    assert_eq!(storm.example, "wx-pro storm-analysis --site KTLX --frames 3");
    let point = &h.commands[1];
    assert_eq!(point.name, "point");
    assert_eq!(point.args.len(), 5);
    assert_eq!(point.args[4].default, Some("surface"));
    assert!(point.args[0].required);
}

#[test]
fn download_validates_model() {
    let ok = cmd_download::run("hrrr", "latest", "0", "./data").unwrap();
    assert_eq!(ok.status, "stub");
    assert_eq!(ok.model, "hrrr");
    assert_eq!(ok.run, "latest");
    assert_eq!(ok.message, "Download not yet wired — will use rustmet-core download infrastructure");
    let err = cmd_download::run("ecmwf", "latest", "0", "./data").unwrap_err();
    assert_eq!(err, "unknown model 'ecmwf'. Valid models: hrrr, gfs, nam, rap, mrms");
}
