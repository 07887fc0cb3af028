use wxcore::point;
use wxcore::tiles::{build_pattern, char_to_font_index, draw_char, draw_text, parse_run_param, pattern_from_lowered, resolve_colormap_static, select_colormap_and_range, ValueRange};

#[test]
fn tile_patterns() {
    assert_eq!(build_pattern("temperature", "2m"), "TMP:2 m above ground");
    assert_eq!(build_pattern("CAPE", "surface"), "CAPE:surface");
    assert_eq!(build_pattern("refl", "whatever"), "REFC:entire atmosphere");
    assert_eq!(build_pattern("srh", "0-1km"), "HLCY:1000-0 m above ground");
    assert_eq!(build_pattern("srh", "0-3km"), "HLCY:3000-0 m above ground");
    assert_eq!(build_pattern("HGT", "500mb"), "HGT:500 mb");
    assert_eq!(build_pattern("t", "850hPa"), "TMP:850 mb");
    assert_eq!(build_pattern("ABSV", "Custom Level"), "ABSV:Custom Level");
    assert_eq!(build_pattern("mslp", "ml"), "MSLMA:255-0 mb above ground");
}

#[test]
fn tile_pattern_from_given_lower_case() {
    assert_eq!(pattern_from_lowered("Wind", "wind", "10M", "10m"), "WIND:10 m above ground");
}

#[test]
fn point_patterns() {
    assert_eq!(point::build_pattern("mslp", "sfc"), "PRES:surface");
    assert_eq!(point::build_pattern("reflectivity", "entire"), "REFC:entire atmosphere");
    assert_eq!(point::build_pattern("srh", "0-3km"), "HLCY:0-3km");
    assert_eq!(point::build_pattern("temp", "700mb"), "TMP:700 mb");
}

#[test]
fn colormap_styles() {
    assert_eq!(resolve_colormap_static("temperature", Some("nws")), "temperature_nws");
    assert_eq!(resolve_colormap_static("temperature_500", Some("pivotal")), "temperature_pivotal");
    assert_eq!(resolve_colormap_static("cape", Some("pivotal")), "cape_pivotal");
    assert_eq!(resolve_colormap_static("winds_sfc", Some("pivotal")), "wind_pivotal");
    assert_eq!(resolve_colormap_static("refl", Some("clean")), "reflectivity_clean");
    assert_eq!(resolve_colormap_static("cape", Some("clean")), "cape");
    assert_eq!(resolve_colormap_static("cape", Some("")), "cape");
    assert_eq!(resolve_colormap_static("cape", None), "cape");
}

#[test]
fn run_param_accepts_documented_form() {
    assert_eq!(parse_run_param("20260312/02z"), Ok(("20260312".to_string(), 2)));
    assert_eq!(parse_run_param("20260312/18Z"), Ok(("20260312".to_string(), 18)));
    assert_eq!(parse_run_param("20260312/6"), Ok(("20260312".to_string(), 6)));
}

#[test]
fn run_param_errors() {
    assert_eq!(parse_run_param("20260312"), Err("Invalid run format '20260312'. Expected YYYYMMDD/HHz".to_string()));
    assert_eq!(parse_run_param("2026/03/12"), Err("Invalid run format '2026/03/12'. Expected YYYYMMDD/HHz".to_string()));
    assert_eq!(parse_run_param("2026031/02z"), Err("Invalid date '2026031'. Expected YYYYMMDD".to_string()));
    assert_eq!(parse_run_param("2026031x/02z"), Err("Invalid date '2026031x'. Expected YYYYMMDD".to_string()));
    assert_eq!(parse_run_param("20260312/xxz"), Err("Invalid hour 'xxz'".to_string()));
    assert_eq!(parse_run_param("20260312/z"), Err("Invalid hour 'z'".to_string()));
    assert_eq!(parse_run_param("20260312/24z"), Err("Hour 24 out of range (0-23)".to_string()));
}

#[test]
fn legend_font_indices() {
    assert_eq!(char_to_font_index('7'), Some(7));
    assert_eq!(char_to_font_index('-'), Some(10));
    assert_eq!(char_to_font_index('.'), Some(11));
    assert_eq!(char_to_font_index('e'), None);
}

#[test]
fn legend_text_is_clipped_to_the_image() {
    let (w, h) = (20usize, 10usize);
    let mut p = vec![0u8; w * h * 4];
    draw_char(&mut p, w, h, 0, 0, '1', (1, 2, 3, 4));
    // '1' row 0 is 0b00100: column 2
    assert_eq!(&p[(0 * w + 2) * 4..(0 * w + 2) * 4 + 4], &[1, 2, 3, 4]);
    let mut q = vec![0u8; w * h * 4];
    draw_text(&mut q, w, h, 12, 5, "88", (9, 9, 9, 9));
    // second glyph starts at x=18 and rows 5..=9 only
    assert_eq!(&q[(5 * w + 13) * 4..(5 * w + 13) * 4 + 4], &[9, 9, 9, 9]);
    assert_eq!(&q[(5 * w + 19) * 4..(5 * w + 19) * 4 + 4], &[9, 9, 9, 9]);
}

#[test]
fn colormap_and_range_by_variable() {
    assert_eq!(select_colormap_and_range("CAPE", "J kg-1"), ("cape", ValueRange::Fixed(0, 500000)));
    assert_eq!(select_colormap_and_range("temp", "K"), ("temperature", ValueRange::Fixed(23315, 32315)));
    assert_eq!(select_colormap_and_range("t", "C"), ("temperature", ValueRange::Fixed(-4000, 5000)));
    assert_eq!(select_colormap_and_range("Dew", "K"), ("dewpoint", ValueRange::Fixed(24315, 30315)));
    assert_eq!(select_colormap_and_range("mslp", "Pa"), ("pressure", ValueRange::Fixed(98000, 104000)));
    assert_eq!(select_colormap_and_range("refc", "dB"), ("nws_reflectivity", ValueRange::Fixed(-1000, 7500)));
    assert_eq!(select_colormap_and_range("hgt", "gpm"), ("temperature", ValueRange::FromData));
    assert_eq!(select_colormap_and_range("mystery", ""), ("temperature", ValueRange::FromData));
}
