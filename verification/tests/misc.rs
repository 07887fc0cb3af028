use wxcore::storm_analysis::time_diff_seconds;
use wxcore::evidence::leak_str;
use wxcore::hazards::{categorize_event, compute_threat_level, hazard_summary, severe_count, watch_status, Severity};
use wxcore::mrms::decompress_gz;
use wxcore::raob_stations::{all_raob_stations, find_raob_station};
use wxcore::sounding::{raob_fetch, sounding_day, sounding_url, choose_sounding_fetch, is_pressure_level, sounding_cache_key, svg_escape, svg_polyline, SoundingFetch};
use wxcore::sounding_cache::SoundingCache;
use wxcore::wind_barbs::{barb_spacing_for_zoom, bresenham_points, circle_filled_points, circle_outline_points};
use std::io::Write;

#[test]
fn hazard_categories() {
    assert_eq!(categorize_event("Red Flag Warning"), "fire_weather");
    assert_eq!(categorize_event("Tornado Watch"), "tornado");
    assert_eq!(categorize_event("Flash Flood Warning"), "flooding");
    assert_eq!(categorize_event("Wind Chill Advisory"), "winter");
    assert_eq!(categorize_event("High Wind Warning"), "wind");
    assert_eq!(categorize_event("Rip Current Statement"), "marine");
    assert_eq!(categorize_event("Air Quality Alert"), "other");
}

#[test]
fn threat_levels() {
    assert_eq!(compute_threat_level(&vec![]), "none");
    assert_eq!(compute_threat_level(&vec![Severity::Minor, Severity::Unknown]), "low");
    assert_eq!(compute_threat_level(&vec![Severity::Moderate, Severity::Minor]), "moderate");
    assert_eq!(compute_threat_level(&vec![Severity::Minor, Severity::Severe]), "high");
    assert_eq!(compute_threat_level(&vec![Severity::Extreme]), "extreme");
}

#[test]
fn hazard_summary_lines() {
    assert_eq!(hazard_summary(&vec![]), "No active hazards");
    assert_eq!(
        hazard_summary(&vec!["tornado", "winter", "tornado"]),
        "Active hazards: winter (1), tornado (2)"
    );
}

#[test]
fn gzip_payloads_are_decompressed() {
    let mut enc = flate2::write::GzEncoder::new(Vec::new(), flate2::Compression::default());
    enc.write_all(b"GRIB payload").unwrap();
    let gz = enc.finish().unwrap();
    assert_eq!(decompress_gz(gz), Ok(b"GRIB payload".to_vec()));
    assert_eq!(decompress_gz(b"GRIB".to_vec()), Ok(b"GRIB".to_vec()));
    let bad = vec![0x1f, 0x8b, 0x00, 0x01];
    let e = decompress_gz(bad).unwrap_err();
    assert!(e.starts_with("Failed to decompress gzip: "));
}

#[test]
fn raob_lookup() {
    let s = find_raob_station("oun").unwrap();
    assert_eq!(s.wmo, "72353");
    assert_eq!(s.lat_centi, 3518);
    let w = find_raob_station("72353").unwrap();
    assert_eq!(w.icao, "OUN");
    assert!(find_raob_station("ZZZ").is_none());
    assert_eq!(all_raob_stations().len(), 92);
}

#[test]
fn evidence_status_names() {
    assert_eq!(leak_str("agree"), "agree");
    assert_eq!(leak_str("minor_disagree"), "minor_disagree");
    assert_eq!(leak_str("Agree"), "unknown");
}

#[test]
fn sounding_helpers() {
    assert_eq!(svg_escape("a<b & \"c\">"), "a&lt;b &amp; &quot;c&quot;&gt;");
    assert!(is_pressure_level(100));
    assert!(is_pressure_level(105));
    assert!(!is_pressure_level(103));
    assert_eq!(
        svg_polyline("0,0 1,1", "#f00", "2", "opacity=\"0.5\""),
        "<polyline points=\"0,0 1,1\" fill=\"none\" stroke=\"#f00\" stroke-width=\"2\" opacity=\"0.5\"/>"
    );
    assert_eq!(sounding_cache_key("OUN", "20260312", Some(12)), "OUN:20260312:12");
    assert_eq!(sounding_cache_key("OUN", "20260312", None), "OUN:20260312:99");
    assert_eq!(choose_sounding_fetch(Some(0), 5), SoundingFetch::Latest00z);
    assert_eq!(choose_sounding_fetch(Some(6), 5), SoundingFetch::AtHour(6));
    assert_eq!(choose_sounding_fetch(None, 16), SoundingFetch::Latest12z);
    assert_eq!(choose_sounding_fetch(None, 5), SoundingFetch::Latest00z);
    assert_eq!(choose_sounding_fetch(None, 1), SoundingFetch::Latest12z);
}

#[test]
fn sounding_cache_ttl_and_replacement() {
    let mut c: SoundingCache<u32> = SoundingCache::new(10);
    c.put("a".to_string(), 1, 0);
    c.put("b".to_string(), 2, 0);
    c.put("a".to_string(), 3, 5);
    assert_eq!(c.get("a", 6), Some(&3));
    assert_eq!(c.get("b", 9_999_999_999), Some(&2));
    assert_eq!(c.get("b", 10_000_000_000), None);
    assert_eq!(c.get("zz", 0), None);
}

#[test]
fn sounding_cache_prunes_when_large() {
    let mut c: SoundingCache<u32> = SoundingCache::new(1);
    for i in 0..101u32 {
        c.put(format!("k{}", i), i, 0);
    }
    c.put("new".to_string(), 7, 5_000_000_000);
    assert_eq!(c.get("new", 5_000_000_000), Some(&7));
    assert_eq!(c.get("k3", 0), None);
}

#[test]
fn barb_geometry_points() {
    assert_eq!(barb_spacing_for_zoom(0), 64);
    assert_eq!(barb_spacing_for_zoom(5), 40);
    assert_eq!(barb_spacing_for_zoom(12), 24);
    assert_eq!(bresenham_points(0, 0, 3, 1), vec![(0, 0), (1, 0), (2, 1), (3, 1)]);
    assert_eq!(bresenham_points(2, 2, 2, 2), vec![(2, 2)]);
    assert_eq!(circle_filled_points(0, 0, 1), vec![(0, -1), (-1, 0), (0, 0), (1, 0), (0, 1)]);
    let ring = circle_outline_points(10, 10, 2, 0);
    assert!(ring.contains(&(12, 10)) && !ring.contains(&(10, 10)));
}

#[test]
fn raob_hours_and_watch_status() {
    assert_eq!(raob_fetch("00Z"), SoundingFetch::Latest00z);
    assert_eq!(raob_fetch("0"), SoundingFetch::Latest00z);
    assert_eq!(raob_fetch("12z"), SoundingFetch::Latest12z);
    assert_eq!(raob_fetch("18"), SoundingFetch::Latest12z);
    assert_eq!(watch_status(true, true), "ALERT \u{2014} threshold exceeded AND active alerts");
    assert_eq!(watch_status(true, false), "WARNING \u{2014} reflectivity threshold exceeded");
    assert_eq!(watch_status(false, true), "WATCH \u{2014} active alerts but below reflectivity threshold");
    assert_eq!(watch_status(false, false), "CLEAR \u{2014} no exceedances");
    assert_eq!(
        severe_count(&vec![Severity::Minor, Severity::Severe, Severity::Extreme, Severity::Unknown]),
        2
    );
}

#[test]
fn svg_escape_round_trip() {
    for s in ["a<b>&\"c\"", "&amp; already", "plain", "", "&lt;&gt;&quot;"] {
        let e = svg_escape(s);
        assert!(!e.contains('<') && !e.contains('>') && !e.contains('"'));
        let back = e.replace("&quot;", "\"").replace("&gt;", ">").replace("&lt;", "<").replace("&amp;", "&");
        assert_eq!(back, s);
    }
}

#[test]
fn latest_sounding_day_and_address() {
    assert_eq!(sounding_day((2024, 3, 1), 11, SoundingFetch::Latest12z), Some(((2024, 2, 29), 12)));
    assert_eq!(sounding_day((2024, 3, 1), 12, SoundingFetch::Latest12z), Some(((2024, 3, 1), 12)));
    assert_eq!(sounding_day((2024, 1, 1), 2, SoundingFetch::Latest00z), Some(((2023, 12, 31), 0)));
    assert_eq!(sounding_day((2024, 1, 1), 3, SoundingFetch::Latest00z), Some(((2024, 1, 1), 0)));
    assert_eq!(sounding_day((2024, 1, 1), 1, SoundingFetch::AtHour(18)), Some(((2024, 1, 1), 18)));
    assert_eq!(
        sounding_url("72357", (2026, 3, 2), 0),
        "https://weather.uwyo.edu/wsgi/sounding?datetime=2026-03-02+00%3A00%3A00&id=72357&src=UNKNOWN&type=TEXT%3ALIST"
    );
}

#[test]
fn scan_time_differences() {
    assert_eq!(time_diff_seconds("2026-03-12T02:09:06Z", "2026-03-12T03:09:06Z"), Some(3600));
    assert_eq!(time_diff_seconds("2026-03-12 03:00:00", "2026-03-12T02:30:00"), Some(1800));
    assert_eq!(time_diff_seconds("2026-03-12T02:09:06Z", "2026-03-12T02:09:06Z"), None);
    assert_eq!(time_diff_seconds("not a time", "2026-03-12T02:09:06Z"), None);
}
