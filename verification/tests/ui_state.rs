use wxcore::ui_state::{
    auto_colormap, colormap_for_name, remember_recent, message_label, status_tone, StatusTone, toggled_render_mode, view_shortcut, colormap_name, select_next_message, select_prev_message, MessageInfo, RenderMode,
    View, ALL_VIEWS, COLORMAP_NAMES,
};

fn msg(name: &str) -> MessageInfo {
    MessageInfo {
        index: 0,
        name: name.to_string(),
        units: String::new(),
        level: String::new(),
        forecast_hr: 0,
        nx: 1,
        ny: 1,
    }
}

#[test]
fn view_labels_and_icons() {
    assert_eq!(View::MapView.label(), "Map View");
    assert_eq!(View::Sounding.label(), "Skew-T");
    assert_eq!(View::Info.label(), "File Info");
    assert_eq!(View::Radar.icon(), "\u{1F4E1}");
    assert_eq!(View::Download.icon(), "\u{2B07}");
    assert_eq!(ALL_VIEWS.len(), 6);
    assert!(RenderMode::Raster != RenderMode::FilledContour);
}

#[test]
fn stepping_through_messages() {
    assert_eq!(select_next_message(None, 3), Some(0));
    assert_eq!(select_next_message(Some(1), 3), Some(2));
    assert_eq!(select_next_message(Some(2), 3), Some(2));
    assert_eq!(select_next_message(Some(0), 0), None);
    assert_eq!(select_prev_message(None, 3), Some(0));
    assert_eq!(select_prev_message(Some(2), 3), Some(1));
    assert_eq!(select_prev_message(Some(0), 3), Some(0));
    assert_eq!(select_prev_message(None, 0), None);
}

#[test]
fn colormap_names_wrap_around() {
    assert_eq!(colormap_name(0), "temperature");
    assert_eq!(colormap_name(19), "temperature");
    assert_eq!(colormap_name(18), "goes_ir");
    assert_eq!(COLORMAP_NAMES.len(), 19);
}

#[test]
fn colormap_guessed_from_message_name() {
    assert_eq!(colormap_for_name("2 metre dewpoint"), "dewpoint");
    assert_eq!(colormap_for_name("u-component of wind"), "wind");
    assert_eq!(colormap_for_name("something else"), "temperature");
    let msgs = vec![msg("Temperature"), msg("CAPE"), msg("Total Cloud Cover")];
    assert_eq!(auto_colormap(&msgs, Some(1), 7), 4);
    assert_eq!(auto_colormap(&msgs, Some(2), 7), 12);
    assert_eq!(auto_colormap(&msgs, None, 7), 7);
    assert_eq!(auto_colormap(&msgs, Some(5), 7), 7);
}

#[test]
fn recent_files_move_to_front_and_stay_ten() {
    let mut recent: Vec<String> = Vec::new();
    remember_recent(&mut recent, "a.grib2".to_string());
    remember_recent(&mut recent, "b.grib2".to_string());
    remember_recent(&mut recent, "a.grib2".to_string());
    assert_eq!(recent, vec!["a.grib2".to_string(), "b.grib2".to_string()]);
    for i in 0..12 {
        remember_recent(&mut recent, format!("f{}.grib2", i));
    }
    assert_eq!(recent.len(), 10);
    assert_eq!(recent[0], "f11.grib2");
    assert_eq!(recent[9], "f2.grib2");
}

#[test]
fn digit_and_render_shortcuts() {
    assert_eq!(view_shortcut(1), Some(View::MapView));
    assert_eq!(view_shortcut(4), Some(View::Radar));
    assert_eq!(view_shortcut(6), Some(View::Info));
    assert_eq!(view_shortcut(0), None);
    assert_eq!(view_shortcut(7), None);
    assert_eq!(toggled_render_mode(RenderMode::Raster), RenderMode::FilledContour);
    assert_eq!(toggled_render_mode(toggled_render_mode(RenderMode::Raster)), RenderMode::Raster);
}

#[test]
fn message_labels_and_status_tones() {
    assert_eq!(message_label(7, "Temperature", "2 m above ground"), "  7 | Temperature @ 2 m above ground");
    assert_eq!(message_label(42, "CAPE", "surface"), " 42 | CAPE @ surface");
    assert_eq!(message_label(1234, "RH", "500 mb"), "1234 | RH @ 500 mb");
    assert_eq!(format!("{:3} | {} @ {}", 42, "CAPE", "surface"), " 42 | CAPE @ surface");
    assert_eq!(status_tone("GRIB2 parse error: bad"), StatusTone::Error);
    assert_eq!(status_tone("Exported map.png"), StatusTone::Success);
    assert_eq!(status_tone("Opened: a.grib2 (3 messages)"), StatusTone::Plain);
}
