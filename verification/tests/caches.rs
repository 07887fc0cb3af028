use wxcore::keyed_cache::{fetch_step, FetchStep};
use wxcore::radar_tiles::{radar_cache_key, RadarCache};
use wxcore::station_plot::MetarCache;
use wxcore::tiles::{field_key, FieldCache};

const SEC: u64 = 1_000_000_000;

#[test]
fn radar_cache_upper_cases_sites_and_expires() {
    let mut c: RadarCache<u32> = RadarCache::new();
    c.put("ktlx", 1, 0);
    assert_eq!(c.get("KTLX", 119 * SEC), Some(&1));
    assert_eq!(c.get("ktlx", 120 * SEC), None);
    c.put("KFWS", 2, 100 * SEC);
    assert_eq!(c.get_status(150 * SEC), vec![("KFWS".to_string(), 50)]);
    // Storing drops the expired KTLX volume.
    c.put("KTLX::scan", 3, 200 * SEC);
    assert_eq!(
        c.get_status(201 * SEC),
        vec![("KFWS".to_string(), 101), ("KTLX::SCAN".to_string(), 1)]
    );
}

#[test]
fn field_cache_runs_and_fields() {
    let mut c: FieldCache<u32> = FieldCache::new();
    assert_eq!(c.get_run("hrrr", 0), None);
    c.put_run("hrrr", "20260312".to_string(), 14, 0);
    c.put_run("gfs", "20260312".to_string(), 12, 60 * SEC);
    assert_eq!(c.get_run("hrrr", 10 * SEC), Some(("20260312".to_string(), 14)));
    assert_eq!(c.get_run("hrrr", 120 * SEC), None);
    assert_eq!(
        c.get_all_runs(130 * SEC),
        vec![("gfs".to_string(), "20260312".to_string(), 12)]
    );
    c.put_run("hrrr", "20260312".to_string(), 15, 130 * SEC);
    assert_eq!(c.get_run("hrrr", 131 * SEC), Some(("20260312".to_string(), 15)));

    let key = ("hrrr".to_string(), "TMP".to_string(), "2 m above ground".to_string(), 3);
    c.put_field(key.clone(), 42, 0);
    assert_eq!(c.get_field(&key, 299 * SEC), Some(&42));
    assert_eq!(c.get_field(&key, 300 * SEC), None);
    let other = ("hrrr".to_string(), "TMP".to_string(), "2 m above ground".to_string(), 4);
    assert_eq!(c.get_field(&other, 0), None);
}

#[test]
fn metar_cache_keeps_five_minutes() {
    let mut c: MetarCache<Vec<u8>> = MetarCache::new();
    assert_eq!(c.fresh_obs(0), None);
    c.store_obs(vec![1, 2], 10 * SEC);
    assert_eq!(c.fresh_obs(309 * SEC), Some(&vec![1, 2]));
    assert_eq!(c.fresh_obs(310 * SEC), None);
}

#[test]
fn field_keys_for_requests() {
    assert_eq!(
        field_key("HRRR", "TMP", "2 m above ground", 3, None),
        Ok(("hrrr".to_string(), "tmp".to_string(), "2 m above ground".to_string(), 3))
    );
    assert_eq!(
        field_key("HRRR", "TMP", "Surface", 0, Some("20260312/6z")),
        Ok(("hrrr_20260312_06z".to_string(), "tmp".to_string(), "surface".to_string(), 0))
    );
    assert_eq!(
        field_key("gfs", "TMP", "surface", 0, Some("bad")),
        Err("Invalid run format 'bad'. Expected YYYYMMDD/HHz".to_string())
    );
}

#[test]
fn fetch_steps_and_radar_keys() {
    assert_eq!(fetch_step(true, true), FetchStep::UseCached);
    assert_eq!(fetch_step(false, true), FetchStep::WaitForOther);
    assert_eq!(fetch_step(false, false), FetchStep::StartDownload);
    assert_eq!(radar_cache_key("ktlx", None), "KTLX");
    assert_eq!(radar_cache_key("ktlx", Some("KTLX20260312_020906_V06")), "KTLX::KTLX20260312_020906_V06");
}
