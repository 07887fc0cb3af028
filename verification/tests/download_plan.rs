use wxcore::download_plan::{
    download_file_name, first_bytes, has_url_builder, hour_message, hrrr_url, parse_forecast_hours, replace_all,
    skipped_model_message, start_message,
};

#[test]
fn forecast_hour_lists_and_spans() {
    assert_eq!(parse_forecast_hours("0-3"), vec![0, 1, 2, 3]);
    assert_eq!(parse_forecast_hours(" 2 - 4 "), vec![2, 3, 4]);
    assert_eq!(parse_forecast_hours("3-1"), Vec::<u32>::new());
    assert_eq!(parse_forecast_hours("a-2"), vec![0, 1, 2]);
    assert_eq!(parse_forecast_hours("1-2-3"), vec![0]);
    assert_eq!(parse_forecast_hours("0,3, 6,x"), vec![0, 3, 6]);
    assert_eq!(parse_forecast_hours(""), Vec::<u32>::new());
}

#[test]
fn hrrr_addresses() {
    assert_eq!(
        hrrr_url("20260312/14", 6),
        "https://nomads.ncep.noaa.gov/pub/data/nccf/com/hrrr/prod/hrrr.20260312/conus/hrrr.t14z.wrfprsf06.grib2"
    );
    // A run written with its trailing 'z' has no cycle digits at its end.
    assert_eq!(
        hrrr_url("20260312/14z", 12),
        "https://nomads.ncep.noaa.gov/pub/data/nccf/com/hrrr/prod/hrrr.20260312/conus/hrrr.tz.wrfprsf12.grib2"
    );
    assert_eq!(
        hrrr_url("2026", 0),
        "https://nomads.ncep.noaa.gov/pub/data/nccf/com/hrrr/prod/hrrr.20250101/conus/hrrr.t2026z.wrfprsf00.grib2"
    );
}

#[test]
fn byte_prefixes_follow_char_boundaries() {
    assert_eq!(first_bytes("abcdefghij", 8), Some("abcdefgh".to_string()));
    assert_eq!(first_bytes("abc", 8), None);
    assert_eq!(first_bytes("abcdef\u{e9}x", 8), Some("abcdef\u{e9}".to_string()));
    assert_eq!(first_bytes("abcdefg\u{e9}", 8), None);
    assert_eq!("abcdefg\u{e9}".get(..8), None);
}

#[test]
fn download_file_names() {
    assert_eq!(download_file_name("hrrr", "20260312/14z", 6), "hrrr_20260312_14z_f006.grib2");
    assert_eq!(download_file_name("gfs", "2026 03/12", 120), "gfs_2026_03_12_f120.grib2");
    assert_eq!(replace_all("a/b/c", '/', ""), "abc");
}

#[test]
fn download_status_lines() {
    assert_eq!(start_message("hrrr", "20260312/14z", "0-3"), "Starting HRRR download: run=20260312/14z, fhours=0-3");
    assert_eq!(hour_message(6), "Downloading F006...");
    assert!(has_url_builder("hrrr"));
    assert!(!has_url_builder("gfs"));
    assert_eq!(skipped_model_message("gfs"), "Model 'gfs' URL builder not yet implemented, using HRRR fallback");
}
