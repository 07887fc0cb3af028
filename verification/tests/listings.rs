use wxcore::radar_tiles::{parse_nomads_listing, parse_scan_timestamp};
use wxcore::storm_analysis::{parse_s3_keys, select_recent};

#[test]
fn scan_timestamps() {
    assert_eq!(parse_scan_timestamp("KTLX20260312_020906_V06", "KTLX"), "2026-03-12T02:09:06Z");
    assert_eq!(parse_scan_timestamp("KTLX_20260312_020906.bz2", "KTLX"), "2026-03-12T02:09:06Z");
    assert_eq!(parse_scan_timestamp("KTLX2026031_020906", "KTLX"), "");
    assert_eq!(parse_scan_timestamp("KTLXshort", "KTLX"), "");
}

#[test]
fn nomads_listing_is_filtered_and_sorted() {
    let html = [
        "<html><a href=\"../\">Parent</a>\n",
        "<a href=\"KTLX20260312_021406_V06\">KTLX20260312_021406_V06</a>  2026-03-12 02:19  5.1M\n",
        "<a href=\"KTLX20260312_020906_V06\">KTLX20260312_020906_V06</a>  2026-03-12 02:14  5.3M\n",
        "<a href=\"KFWS20260312_020906_V06\">KFWS20260312_020906_V06</a>  2026-03-12 02:14  5.3M\n",
        "<a href=\"KTLX_notes.txt\">KTLX_notes.txt</a> 2026-03-12 01:00 1K\n",
        "</html>",
    ]
    .concat();
    let html = html.as_str();
    let scans = parse_nomads_listing(html, "KTLX");
    assert_eq!(scans.len(), 2);
    assert_eq!(scans[0].filename, "KTLX20260312_020906_V06");
    assert_eq!(scans[0].timestamp, "2026-03-12T02:09:06Z");
    assert_eq!(scans[0].modified, "2026-03-12 02:14");
    assert_eq!(scans[1].filename, "KTLX20260312_021406_V06");
    assert_eq!(scans[1].modified, "2026-03-12 02:19");
}

#[test]
fn s3_keys_skip_metadata() {
    let body = "<ListBucketResult><Contents><Key>2026/03/12/KTLX/KTLX20260312_020906_V06</Key></Contents>\
<Contents><Key>2026/03/12/KTLX/KTLX20260312_020906_V06_MDM</Key></Contents>\
<Contents><Key>2026/03/12/KTLX/KTLX20260312_021406_V06</Key></Contents></ListBucketResult>";
    let keys = parse_s3_keys(body).unwrap();
    assert_eq!(keys, vec!["2026/03/12/KTLX/KTLX20260312_020906_V06", "2026/03/12/KTLX/KTLX20260312_021406_V06"]);
    assert!(parse_s3_keys("<ListBucketResult></ListBucketResult>").is_none());
}

#[test]
fn most_recent_keys() {
    let keys = vec!["b2".to_string(), "a1".to_string(), "c3".to_string(), "b1".to_string()];
    assert_eq!(select_recent(&keys, 2), vec!["b2", "c3"]);
    assert_eq!(select_recent(&keys, 10), vec!["a1", "b1", "b2", "c3"]);
    assert_eq!(select_recent(&keys, 0), Vec::<String>::new());
}
