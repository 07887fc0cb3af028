use wxcore::sites::{find_site, find_site_upper, SITES};

#[test]
fn test_sites_table_has_minimum_entries() {
    assert!(SITES.len() >= 10);
}

#[test]
fn test_find_site_exists() {
    let site = find_site("KTLX").expect("KTLX should be in the site table");
    assert_eq!(site.0, "KTLX");
    assert_eq!(site.1, "Oklahoma City, OK");
    assert!((site.2 as f64 / 10000.0 - 35.3331).abs() < 0.001);
    assert!((site.3 as f64 / 10000.0 - (-97.2778)).abs() < 0.001);
}

#[test]
fn test_find_site_case_insensitive() {
    assert!(find_site("ktlx").is_some());
    assert!(find_site("Ktlx").is_some());
}

#[test]
fn test_find_site_not_found() {
    assert!(find_site("XYZZ").is_none());
}

#[test]
fn test_all_sites_findable() {
    for (id, _, _, _, _) in SITES.iter() {
        assert!(find_site(id).is_some(), "Site {} should be findable", id);
    }
}

#[test]
fn site_lookup_by_upper_case_id_is_exact() {
    assert_eq!(find_site_upper("KPUX").map(|s| s.4), Some(1600));
    assert!(find_site_upper("kpux").is_none());
}
