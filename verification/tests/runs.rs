use wxcore::tiles::tile_path_numbers;
use wxcore::timeseries::{
    fallback_hour, fallback_run, last_run_hour, series_next, series_plan, series_start, FallbackError, FetchEvent,
    SeriesAction,
};

#[test]
fn fallback_same_day() {
    assert_eq!(fallback_hour("gfs", 12), Some(6));
    assert_eq!(fallback_hour("hrrr", 12), Some(11));
    assert_eq!(fallback_hour("nam", 5), None);
    assert_eq!(fallback_hour("rap", 0), None);
    assert_eq!(last_run_hour("gfs"), 18);
    assert_eq!(last_run_hour("hrrr"), 23);
}

#[test]
fn fallback_run_steps_back() {
    let mut date = String::from("20240315");
    let mut hour: u32 = 12;
    assert_eq!(fallback_run("gfs", &mut date, &mut hour), Ok(()));
    assert_eq!(date, "20240315");
    assert_eq!(hour, 6);
}

#[test]
fn fallback_run_rolls_to_previous_day() {
    let mut date = String::from("20240301");
    let mut hour: u32 = 0;
    assert_eq!(fallback_run("hrrr", &mut date, &mut hour), Ok(()));
    assert_eq!(date, "20240229");
    assert_eq!(hour, 23);

    let mut date = String::from("20240101");
    let mut hour: u32 = 3;
    assert_eq!(fallback_run("gfs", &mut date, &mut hour), Ok(()));
    assert_eq!(date, "20231231");
    assert_eq!(hour, 18);
}

#[test]
fn fallback_run_rejects_bad_date() {
    let mut date = String::from("2024-03-01");
    let mut hour: u32 = 0;
    assert_eq!(fallback_run("hrrr", &mut date, &mut hour), Err(FallbackError::InvalidDate));
    assert_eq!(date, "2024-03-01");
    assert_eq!(hour, 0);
}

#[test]
fn tile_path_parts() {
    assert_eq!(tile_path_numbers("f06", "12.png"), (6, 12));
    assert_eq!(tile_path_numbers("ff3", "7.png.png"), (3, 7));
    assert_eq!(tile_path_numbers("x", "abc.png"), (0, 0));
    assert_eq!(tile_path_numbers("f", ".png"), (0, 0));
}

#[test]
fn fallback_run_reviewed_cases() {
    let (mut d1, mut h1) = (String::from("20240301"), 0u32);
    assert_eq!(fallback_run("gfs", &mut d1, &mut h1), Ok(()));
    assert_eq!((d1.as_str(), h1), ("20240229", 18));
    let (mut d2, mut h2) = (String::from("20240101"), 5u32);
    assert_eq!(fallback_run("hrrr", &mut d2, &mut h2), Ok(()));
    assert_eq!((d2.as_str(), h2), ("20240101", 4));
    let (mut d3, mut h3) = (String::from("20240101"), 0u32);
    assert_eq!(fallback_run("hrrr", &mut d3, &mut h3), Ok(()));
    assert_eq!((d3.as_str(), h3), ("20231231", 23));
    let (mut d4, mut h4) = (String::from("19000301"), 0u32);
    assert_eq!(fallback_run("nam", &mut d4, &mut h4), Ok(()));
    assert_eq!((d4.as_str(), h4), ("19000228", 18));
    let (mut d5, mut h5) = (String::from("00010101"), 0u32);
    assert_eq!(fallback_run("rap", &mut d5, &mut h5), Ok(()));
    assert_eq!((d5.as_str(), h5), ("00001231", 23));
}

#[test]
fn series_plan_checks_model_and_caps_hours() {
    let p = series_plan("GFS", 500, "500mb").unwrap();
    assert_eq!((p.model.as_str(), p.hours, p.product), ("gfs", 384, "prs"));
    let p = series_plan("hrrr", 18, "2m").unwrap();
    assert_eq!((p.model.as_str(), p.hours, p.product), ("hrrr", 18, "sfc"));
    let p = series_plan("rap", 60, "850 hPa").unwrap();
    assert_eq!((p.hours, p.product), (51, "prs"));
    assert_eq!(
        series_plan("ecmwf", 10, "2m").err(),
        Some("Model 'ecmwf' not supported. Use: hrrr, rap, gfs, nam".to_string())
    );
}

#[test]
fn series_steps_fall_back_once() {
    let (s, a) = series_start(6);
    assert_eq!(a, SeriesAction::Fetch(0));
    // Hour 0 fails on the latest run: step back to the run before.
    let (s, a) = series_next(s, FetchEvent::DownloadFailed);
    assert_eq!(a, SeriesAction::FallBack);
    assert_eq!(s.attempt, 2);
    // Hour 0 fails again: stop.
    let (_, a) = series_next(s, FetchEvent::DownloadFailed);
    assert_eq!(a, SeriesAction::Fail);
}

#[test]
fn series_three_failures_early_mark_run_incomplete() {
    let (s, _) = series_start(10);
    let (s, a) = series_next(s, FetchEvent::Fetched);
    assert_eq!(a, SeriesAction::Fetch(1));
    let (s, _) = series_next(s, FetchEvent::DownloadFailed);
    let (s, _) = series_next(s, FetchEvent::Unreadable);
    let (s, a) = series_next(s, FetchEvent::DownloadFailed);
    assert_eq!(a, SeriesAction::FallBack);
    assert_eq!((s.attempt, s.fhour, s.failed), (2, 0, 0));
    // On the second run the same failures end the series with what it has.
    let (s, _) = series_next(s, FetchEvent::Fetched);
    let (s, _) = series_next(s, FetchEvent::DownloadFailed);
    let (s, _) = series_next(s, FetchEvent::DownloadFailed);
    let (s, a) = series_next(s, FetchEvent::DownloadFailed);
    assert_eq!(a, SeriesAction::Finish);
    assert_eq!((s.fhour, s.failed, s.consecutive), (3, 3, 3));
}

#[test]
fn series_unpack_failure_clears_streak_and_runs_to_end() {
    let (s, _) = series_start(2);
    let (s, _) = series_next(s, FetchEvent::Fetched);
    let (s, _) = series_next(s, FetchEvent::DownloadFailed);
    let (s, a) = series_next(s, FetchEvent::UnpackFailed);
    assert_eq!(a, SeriesAction::Finish);
    assert_eq!((s.fhour, s.failed, s.consecutive), (2, 2, 0));
}
