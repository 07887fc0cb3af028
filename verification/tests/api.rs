use wxcore::api::{
    alerts_args, is_given, metar_args, model_image_args, point_args, point_value_args, radar_args,
    radar_image_args, raw_requested, scan_args, tile_args,
};

fn words(ws: &[&str]) -> Vec<String> {
    ws.iter().map(|w| w.to_string()).collect()
}

#[test]
fn point_requests_need_lat_and_lon() {
    assert_eq!(
        point_args("conditions", Some("35.2"), Some("-97.4")),
        Ok(words(&["conditions", "--lat", "35.2", "--lon", "-97.4"]))
    );
    assert_eq!(point_args("forecast", Some("35.2"), Some("")), Err("lat and lon required".to_string()));
    assert_eq!(point_args("severe", None, Some("-97.4")), Err("lat and lon required".to_string()));
    assert!(!is_given(Some("")));
    assert!(is_given(Some("x")));
}

#[test]
fn alerts_prefer_state() {
    assert_eq!(alerts_args(Some("35"), Some("-97"), Some("OK")), Ok(words(&["alerts", "--state", "OK"])));
    assert_eq!(alerts_args(Some("35"), Some("-97"), None), Ok(words(&["alerts", "--lat", "35", "--lon", "-97"])));
    assert_eq!(alerts_args(Some("35"), None, Some("")), Err("lat/lon or state required".to_string()));
}

#[test]
fn station_site_and_variable_requests() {
    assert_eq!(metar_args(Some("KOKC")), Ok(words(&["metar", "--station", "KOKC"])));
    assert_eq!(metar_args(None), Err("station required".to_string()));
    assert_eq!(radar_args(Some("KTLX"), None, None), Ok(words(&["radar", "--site", "KTLX"])));
    assert_eq!(radar_args(Some(""), Some("35"), Some("-97")), Ok(words(&["radar", "--lat", "35", "--lon", "-97"])));
    assert_eq!(radar_args(None, Some("35"), None), Err("site or lat/lon required".to_string()));
    assert_eq!(scan_args(Some("cape"), None), Ok(words(&["scan", "--var", "cape"])));
    assert_eq!(scan_args(Some("cape"), Some("max")), Ok(words(&["scan", "--var", "cape", "--mode", "max"])));
    assert_eq!(scan_args(None, Some("max")), Err("var required".to_string()));
}

#[test]
fn point_value_and_image_requests() {
    assert_eq!(
        point_value_args(Some("35"), Some("-97"), Some("gfs"), None),
        Ok(words(&["point", "--lat", "35", "--lon", "-97", "--model", "gfs"]))
    );
    assert_eq!(
        point_value_args(Some("35"), Some("-97"), None, Some("cape")),
        Ok(words(&["point", "--lat", "35", "--lon", "-97", "--var", "cape"]))
    );
    assert_eq!(radar_image_args(Some("KTLX")), Ok(words(&["radar", "--site", "KTLX", "--image"])));
    assert_eq!(radar_image_args(None), Err("site required".to_string()));
    assert_eq!(model_image_args(Some("cape")), Ok(words(&["model-image", "--var", "cape"])));
    assert_eq!(model_image_args(Some("")), Err("var required".to_string()));
    assert!(raw_requested(Some("true")));
    assert!(raw_requested(Some("1")));
    assert!(!raw_requested(Some("yes")));
    assert!(!raw_requested(None));
}

#[test]
fn tile_request_command_line() {
    assert_eq!(
        tile_args("hrrr", "cape", "surface", 6, 5, 7, 12),
        words(&[
            "tiles", "--model", "hrrr", "--var", "cape", "--level", "surface", "--fhour", "6", "--z", "5", "--x",
            "7", "--y", "12",
        ])
    );
}
