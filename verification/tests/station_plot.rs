use wxcore::raster::{draw_circle, draw_line, draw_line_thick, set_pixel, TILE_SIZE};
use wxcore::station_plot::{
    barb_counts, draw_sky_cover, draw_text, draw_text_outlined, draw_weather_symbol, get_glyph,
    is_major_airport, parse_sky_cover, CloudLayer, SkyCoverType,
};

fn blank() -> Vec<u8> {
    vec![0u8; TILE_SIZE * TILE_SIZE * 4]
}

fn alpha(p: &[u8], x: usize, y: usize) -> u8 {
    p[(y * TILE_SIZE + x) * 4 + 3]
}

#[test]
fn glyph_lookup_ignores_ascii_case() {
    assert_eq!(get_glyph('t'), get_glyph('T'));
    assert_eq!(get_glyph('0'), Some([0x70, 0x88, 0x98, 0xa8, 0xc8, 0x88, 0x70]));
    assert_eq!(get_glyph('Q'), None);
}

#[test]
fn opaque_pixel_replaces_and_translucent_blends() {
    let mut p = blank();
    set_pixel(&mut p, TILE_SIZE, 3, 4, [10, 20, 30, 255]);
    let i = (4 * TILE_SIZE + 3) * 4;
    assert_eq!(&p[i..i + 4], &[10, 20, 30, 255]);
    set_pixel(&mut p, TILE_SIZE, 3, 4, [0, 0, 0, 160]);
    // channel: (0*160 + 10*95)/255 = 3; alpha: 255 + 160 - 255*160/255 = 255
    assert_eq!(&p[i..i + 4], &[3, 7, 11, 255]);
}

#[test]
fn pixels_off_the_tile_are_ignored() {
    let mut p = blank();
    set_pixel(&mut p, TILE_SIZE, -1, 0, [1, 2, 3, 255]);
    set_pixel(&mut p, TILE_SIZE, 0, 256, [1, 2, 3, 255]);
    set_pixel(&mut p, TILE_SIZE, 256, 0, [1, 2, 3, 255]);
    assert!(p.iter().all(|&b| b == 0));
}

#[test]
fn line_runs_between_its_end_points() {
    let mut p = blank();
    draw_line(&mut p, TILE_SIZE, 2, 2, 7, 4, [0, 0, 0, 255]);
    assert_eq!(alpha(&p, 2, 2), 255);
    assert_eq!(alpha(&p, 7, 4), 255);
    let lit = p.chunks(4).filter(|c| c[3] > 0).count();
    assert_eq!(lit, 6);
}

#[test]
fn thick_line_adds_right_and_lower_copies() {
    let mut p = blank();
    draw_line_thick(&mut p, TILE_SIZE, 10, 10, 14, 10, [0, 0, 0, 255]);
    assert_eq!(alpha(&p, 10, 10), 255);
    assert_eq!(alpha(&p, 15, 10), 255);
    assert_eq!(alpha(&p, 10, 11), 255);
    assert_eq!(alpha(&p, 15, 11), 0);
}

#[test]
fn filled_circle_covers_disk() {
    let mut p = blank();
    draw_circle(&mut p, TILE_SIZE, 50, 50, 3, [0, 0, 0, 255], true);
    let lit = p.chunks(4).filter(|c| c[3] > 0).count();
    // rows dy=-3..3 with half widths 0,2,2,3,2,2,0
    assert_eq!(lit, 1 + 5 + 5 + 7 + 5 + 5 + 1);
}

#[test]
fn circle_outline_touches_radius() {
    let mut p = blank();
    draw_circle(&mut p, TILE_SIZE, 50, 50, 5, [0, 0, 0, 255], false);
    assert_eq!(alpha(&p, 55, 50), 255);
    assert_eq!(alpha(&p, 45, 50), 255);
    assert_eq!(alpha(&p, 50, 55), 255);
    assert_eq!(alpha(&p, 50, 50), 0);
}

#[test]
fn sky_cover_symbol_pixel_counts() {
    let count = |c: SkyCoverType| {
        let mut p = blank();
        draw_sky_cover(&mut p, TILE_SIZE, 60, 60, 5, c);
        p.chunks(4).filter(|px| px[3] > 0).count()
    };
    assert_eq!(count(SkyCoverType::Clear), 28);
    assert_eq!(count(SkyCoverType::Few), 41);
    assert_eq!(count(SkyCoverType::Scattered), 67);
    // the outline reaches a little outside the filled disk
    assert_eq!(count(SkyCoverType::Broken), 84);
    assert_eq!(count(SkyCoverType::Overcast), 81);
    assert_eq!(count(SkyCoverType::Obscured), 81);
}

#[test]
fn text_uses_six_pixel_cells() {
    let mut p = blank();
    draw_text(&mut p, TILE_SIZE, 0, 0, "11", [0, 0, 0, 255]);
    // '1' top row is 0b00100 -> column 2
    assert_eq!(alpha(&p, 2, 0), 255);
    assert_eq!(alpha(&p, 8, 0), 255);
    assert_eq!(alpha(&p, 3, 0), 0);
}

#[test]
fn outlined_text_has_dark_halo() {
    let mut p = blank();
    draw_text_outlined(&mut p, TILE_SIZE, 10, 10, "1", [220, 40, 40, 255]);
    assert_eq!(&p[(10 * TILE_SIZE + 12) * 4..(10 * TILE_SIZE + 12) * 4 + 4], &[220, 40, 40, 255]);
    assert!(alpha(&p, 12, 9) > 0);
}

#[test]
fn weather_symbol_precedence() {
    let mut a = blank();
    draw_weather_symbol(&mut a, TILE_SIZE, 20, 20, "-TSRA");
    let mut b = blank();
    draw_text_outlined(&mut b, TILE_SIZE, 20, 20, "TS", [180, 0, 180, 255]);
    assert_eq!(a, b);
    let mut c = blank();
    draw_weather_symbol(&mut c, TILE_SIZE, 20, 20, "FZDZ");
    let mut d = blank();
    draw_text_outlined(&mut d, TILE_SIZE, 20, 20, "ZR", [180, 0, 180, 255]);
    assert_eq!(c, d);
    let mut e = blank();
    draw_weather_symbol(&mut e, TILE_SIZE, 20, 20, "VCSH");
    assert!(e.iter().all(|&x| x == 0));
}

#[test]
fn major_airports() {
    assert!(is_major_airport("KATL"));
    assert!(is_major_airport("PHNL"));
    assert!(!is_major_airport("katl"));
    assert!(!is_major_airport("KXYZ"));
}

#[test]
fn sky_cover_worst_layer_and_ceiling() {
    let clouds = vec![
        CloudLayer { cover: "FEW".to_string(), base: Some(1500) },
        CloudLayer { cover: "BKN".to_string(), base: Some(4000) },
        CloudLayer { cover: "OVC".to_string(), base: Some(2500) },
        CloudLayer { cover: "XXX".to_string(), base: Some(100) },
    ];
    assert_eq!(parse_sky_cover(&clouds), (SkyCoverType::Overcast, Some(2500)));
    assert_eq!(parse_sky_cover(&vec![]), (SkyCoverType::Clear, None));
    let vv = vec![CloudLayer { cover: "VV".to_string(), base: None }];
    assert_eq!(parse_sky_cover(&vv), (SkyCoverType::Obscured, None));
    let few = vec![CloudLayer { cover: "SCT".to_string(), base: Some(900) }];
    assert_eq!(parse_sky_cover(&few), (SkyCoverType::Scattered, None));
}

#[test]
fn barb_decomposition() {
    assert_eq!(barb_counts(65), (1, 1, 1));
    assert_eq!(barb_counts(12), (0, 1, 0));
    assert_eq!(barb_counts(8), (0, 0, 1));
    assert_eq!(barb_counts(150), (3, 0, 0));
}
