use wxcore::wyoming::{
    data_table_rows, extract_pre_block, header_station, level_fields, missing_field, parse_station_header,
};

#[test]
fn test_extract_pre_block() {
    let html = "<html><body><pre>Hello\nWorld</pre></body></html>";
    let content = extract_pre_block(html).unwrap();
    assert_eq!(content, "Hello\nWorld");
}

#[test]
fn pre_block_tags_match_any_case() {
    assert_eq!(extract_pre_block("<PRE>abc</Pre>").unwrap(), "abc");
}

#[test]
fn pre_block_missing_open_tag() {
    assert_eq!(
        extract_pre_block("<html>no block</html>"),
        Err("No <pre> block found in Wyoming response".to_string())
    );
}

#[test]
fn pre_block_missing_close_tag() {
    assert_eq!(extract_pre_block("<pre>unterminated"), Err("No closing </pre> found".to_string()));
}

#[test]
fn pre_block_takes_first_block() {
    assert_eq!(extract_pre_block("x<pre>one</pre><pre>two</pre>").unwrap(), "one");
}

const SAMPLE: &str = "72353 OUN Norman Observations at 12Z 12 Mar 2026\n\
\n\
-----------------------------------------------------------------------------\n\
   PRES   HGHT   TEMP   DWPT   RELH   MIXR   DRCT   SKNT   THTA   THTE   THTV\n\
    hPa     m      C      C      %    g/kg    deg   knot     K      K      K \n\
-----------------------------------------------------------------------------\n\
 1000.0     98                                                               \n\
  967.0    357   18.2   12.2     68   9.32    160     14  294.3  321.2  296.0\n\
  925.0    733   15.0   10.0     72   8.50    185     30  294.9  319.7  296.4\n\
Station information and sounding indices\n\
                             Station number: 72353\n\
                           Observation time: 260312/1200\n\
                           Station latitude: 35.18\n\
                          Station longitude: -97.44\n\
                          Station elevation: 357.0 m\n";

#[test]
fn table_rows_between_separators() {
    let (rows, ms) = data_table_rows(SAMPLE);
    assert!(!ms);
    assert_eq!(
        rows,
        vec![
            "1000.0     98".to_string(),
            "967.0    357   18.2   12.2     68   9.32    160     14  294.3  321.2  296.0".to_string(),
            "925.0    733   15.0   10.0     72   8.50    185     30  294.9  319.7  296.4".to_string(),
        ]
    );
}

#[test]
fn table_rows_stop_at_blank_line_and_see_sped() {
    let text = "---\nPRES HGHT SPED\n---\n1 2 3\n\n4 5 6\n";
    let (rows, ms) = data_table_rows(text);
    assert!(ms);
    assert_eq!(rows, vec!["1 2 3".to_string()]);
    let (rows, ms) = data_table_rows("no table here\n1 2 3\n");
    assert!(!ms);
    assert!(rows.is_empty());
}

#[test]
fn station_header_fields() {
    let h = parse_station_header(SAMPLE, "OUN");
    assert_eq!(h.station_number, "72353");
    assert_eq!(h.obs_time, "260312/1200");
    assert_eq!(h.latitudes, vec!["35.18".to_string()]);
    assert_eq!(h.longitudes, vec!["-97.44".to_string()]);
    assert_eq!(h.elevations, vec!["357.0".to_string()]);

    let h = parse_station_header("nothing useful", "OUN");
    assert_eq!(h.station_number, "OUN");
    assert_eq!(h.obs_time, "");
    assert!(h.latitudes.is_empty());
}

#[test]
fn sounding_row_columns() {
    assert_eq!(
        level_fields("967.0    357   18.2   12.2     68   9.32    160     14  294.3  321.2  296.0"),
        Some(vec![
            "967.0".to_string(),
            "357".to_string(),
            "18.2".to_string(),
            "12.2".to_string(),
            "160".to_string(),
            "14".to_string(),
        ])
    );
    assert_eq!(level_fields("1000.0     98"), None);
}

#[test]
fn header_station_prefers_station_number() {
    assert_eq!(header_station("72353", "LMN").map(|s| s.icao), Some("OUN"));
    assert_eq!(header_station("99999", "lmn").map(|s| s.icao), Some("LMN"));
    assert!(header_station("99999", "ZZZ").is_none());
}

fn read_field(s: &str) -> Option<f64> {
    if missing_field(s) {
        None
    } else {
        s.trim().parse::<f64>().ok()
    }
}

#[test]
fn test_parse_data_line() {
    let line = "  965.0    357   22.4    8.4     42   7.16    180     10  297.5  319.1  298.7";
    let f = level_fields(line).expect("should parse");
    assert!((read_field(&f[0]).unwrap() - 965.0).abs() < 0.01);
    assert!((read_field(&f[1]).unwrap() - 357.0).abs() < 0.01);
    assert!((read_field(&f[2]).unwrap() - 22.4).abs() < 0.01);
    assert!((read_field(&f[3]).unwrap() - 8.4).abs() < 0.01);
    assert!((read_field(&f[4]).unwrap() - 180.0).abs() < 0.01);
    assert!((read_field(&f[5]).unwrap() - 10.0).abs() < 0.01);
}

#[test]
fn test_parse_data_table() {
    let text = r#"
Some header text

-----------------------------------------------------------------------------
   PRES   HGHT   TEMP   DWPT   RELH   MIXR   DRCT   SKNT   THTA   THTE   THTV
    hPa     m      C      C      %    g/kg    deg   knot     K      K      K
-----------------------------------------------------------------------------
  965.0    357   22.4    8.4     42   7.16    180     10  297.5  319.1  298.7
  957.4    427   21.8    8.3     42   7.17    185     14  297.5  319.2  298.8
  925.0    727   19.4    7.4     43   6.98    200     18  297.5  318.7  298.7

Station information and calculation results
"#;
    let (rows, ms) = data_table_rows(text);
    assert!(!ms);
    let levels: Vec<Vec<String>> = rows.iter().filter_map(|r| level_fields(r)).collect();
    assert_eq!(levels.len(), 3);
    assert!((read_field(&levels[0][0]).unwrap() - 965.0).abs() < 0.01);
    assert!((read_field(&levels[2][0]).unwrap() - 925.0).abs() < 0.01);
}

#[test]
fn test_parse_field_missing() {
    assert!(read_field("////").is_none());
    assert!(read_field("****").is_none());
    assert!(read_field("99999").is_none());
    assert!(read_field("").is_none());
    assert!((read_field("42.5").unwrap() - 42.5).abs() < 0.01);
    assert!(missing_field("  //// "));
    assert!(!missing_field("42.5"));
}
