//! Model-tile request handling: GRIB search patterns for a variable and
//! level, colormap style overrides, and the run parameter.
use vstd::prelude::*;
use crate::text::{
    all_ascii_digits, all_digits, append, opt_chars, push_decimal_padded, chars_of, contains_seq, decimal, decimal_padded,
    digit_char, digits_value, has_suffix, is_digit, zeros,
    parse_u32, push_decimal, str_contains, str_ends_with, str_eq, string_from_range,
    table_get, table_lookup, to_lower, trim_end_all, trim_prefix_all, trim_start_all,
    trim_suffix_all, u32_text, unicode_lower,
};
use crate::contours::glyph5_points;
use crate::raster::Point;
use crate::storm_image::{lemma_put_all_concat, lemma_put_all_len, put_all, put_glyph};
use crate::keyed_cache::{distinct_keys, find, fresh_only, lemma_fresh_only_step, stored, Entry, KeyedCache};
use crate::tile_cache::{is_fresh, still_fresh, has_slash, head_field, slash_from, tail_fields};

verus! {

/// GRIB names of the variables a tile can show, by the names a request may use.
pub const TILE_VARIABLES: [(&'static str, &'static str); 37] = [
    ("temperature", "TMP"),
    ("temp", "TMP"),
    ("t", "TMP"),
    ("dewpoint", "DPT"),
    ("td", "DPT"),
    ("dew", "DPT"),
    ("wind_u", "UGRD"),
    ("u", "UGRD"),
    ("ugrd", "UGRD"),
    ("wind_v", "VGRD"),
    ("v", "VGRD"),
    ("vgrd", "VGRD"),
    ("gust", "GUST"),
    ("pressure", "PRES"),
    ("pres", "PRES"),
    ("mslp", "MSLMA"),
    ("cape", "CAPE"),
    ("cin", "CIN"),
    ("visibility", "VIS"),
    ("vis", "VIS"),
    ("rh", "RH"),
    ("relative_humidity", "RH"),
    ("height", "HGT"),
    ("hgt", "HGT"),
    ("precip", "APCP"),
    ("precipitation", "APCP"),
    ("apcp", "APCP"),
    ("wind_speed", "WIND"),
    ("wspd", "WIND"),
    ("wind", "WIND"),
    ("snow", "WEASD"),
    ("snowfall", "WEASD"),
    ("weasd", "WEASD"),
    ("cloud", "TCDC"),
    ("cloud_cover", "TCDC"),
    ("tcc", "TCDC"),
    ("tcdc", "TCDC"),
];

/// Variables whose whole search pattern is fixed, level included.
pub const TILE_FULL_PATTERNS: [(&'static str, &'static str); 8] = [
    ("reflectivity", "REFC:entire atmosphere"),
    ("refl", "REFC:entire atmosphere"),
    ("refc", "REFC:entire atmosphere"),
    ("pwat", "PWAT:entire atmosphere"),
    ("precipitable_water", "PWAT:entire atmosphere"),
    ("updraft_helicity", "MXUPHL:5000-2000 m above ground"),
    ("uh", "MXUPHL:5000-2000 m above ground"),
    ("mxuphl", "MXUPHL:5000-2000 m above ground"),
];

/// GRIB names of the levels a tile request may name.
pub const TILE_LEVELS: [(&'static str, &'static str); 17] = [
    ("surface", "surface"),
    ("sfc", "surface"),
    ("2m", "2 m above ground"),
    ("10m", "10 m above ground"),
    ("atmosphere", "entire atmosphere"),
    ("entire", "entire atmosphere"),
    ("0-3km", "3000-0 m above ground"),
    ("3000-0m", "3000-0 m above ground"),
    ("0-1km", "1000-0 m above ground"),
    ("1000-0m", "1000-0 m above ground"),
    ("0-6km", "6000-0 m above ground"),
    ("6000-0m", "6000-0 m above ground"),
    ("2-5km", "5000-2000 m above ground"),
    ("5000-2000m", "5000-2000 m above ground"),
    ("255-0mb", "255-0 mb above ground"),
    ("ml", "255-0 mb above ground"),
    ("mixed_layer", "255-0 mb above ground"),
];

/// The search pattern for GRIB variable name `gv` at a level: a known level
/// by its GRIB name; a pressure level ("500mb", "850hpa") as its number of
/// millibars; any other level as given.
pub open spec fn with_level(
    gv: Seq<char>,
    level: Seq<char>,
    level_lower: Seq<char>,
    levels: Seq<(&'static str, &'static str)>,
) -> Seq<char> {
    match table_get(levels, level_lower) {
        Some(l) => gv + ":"@ + l,
        None => if has_suffix(level_lower, "mb"@) || has_suffix(level_lower, "hpa"@) {
            gv + ":"@ + trim_suffix_all(trim_suffix_all(level_lower, "mb"@), "hpa"@) + " mb"@
        } else {
            gv + ":"@ + level
        },
    }
}

/// Builds the pattern that `with_level` describes.
pub fn level_pattern(
    gv: &str,
    level: &str,
    level_lower: &str,
    levels: &[(&'static str, &'static str)],
) -> (r: String)
    ensures
        r@ == with_level(gv@, level@, level_lower@, levels@),
{
    let mut out = String::new();
    append(&mut out, gv);
    append(&mut out, ":");
    match table_lookup(levels, level_lower) {
        Some(l) => {
            append(&mut out, l);
        },
        None => {
            if str_ends_with(level_lower, "mb") || str_ends_with(level_lower, "hpa") {
                let a = trim_end_all(level_lower, "mb");
                let b = trim_end_all(a.as_str(), "hpa");
                append(&mut out, b.as_str());
                append(&mut out, " mb");
            } else {
                append(&mut out, level);
            }
        },
    }
    proof {
        reveal_strlit(":");
    }
    out
}

/// The helicity variable, whose layer follows the level asked for.
pub open spec fn is_helicity(v: Seq<char>) -> bool {
    v == "helicity"@ || v == "hlcy"@ || v == "srh"@
}

/// The GRIB search pattern for a tile of variable `var` at `level`, given
/// their lower-case forms: helicity over 0-1 km when the level mentions a
/// "1" (else 0-3 km); a variable with a fixed pattern as that pattern;
/// otherwise the variable's GRIB name (or `var` itself) at the level.
pub open spec fn tile_pattern(
    var: Seq<char>,
    var_lower: Seq<char>,
    level: Seq<char>,
    level_lower: Seq<char>,
) -> Seq<char> {
    if is_helicity(var_lower) {
        if contains_seq(level_lower, "1"@) {
            "HLCY:1000-0 m above ground"@
        } else {
            "HLCY:3000-0 m above ground"@
        }
    } else {
        match table_get(TILE_FULL_PATTERNS@, var_lower) {
            Some(p) => p,
            None => {
                let gv = match table_get(TILE_VARIABLES@, var_lower) {
                    Some(n) => n,
                    None => var,
                };
                with_level(gv, level, level_lower, TILE_LEVELS@)
            },
        }
    }
}

/// The tile search pattern, from the lower-case forms of the variable and
/// level already computed.
pub fn pattern_from_lowered(var: &str, var_lower: &str, level: &str, level_lower: &str) -> (r:
    String)
    ensures
        r@ == tile_pattern(var@, var_lower@, level@, level_lower@),
{
    if str_eq(var_lower, "helicity") || str_eq(var_lower, "hlcy") || str_eq(var_lower, "srh") {
        if str_contains(level_lower, "1") {
            return crate::text::owned("HLCY:1000-0 m above ground");
        }
        return crate::text::owned("HLCY:3000-0 m above ground");
    }
    match table_lookup(&TILE_FULL_PATTERNS, var_lower) {
        Some(p) => crate::text::owned(p),
        None => {
            let gv: &str = match table_lookup(&TILE_VARIABLES, var_lower) {
                Some(n) => n,
                None => var,
            };
            level_pattern(gv, level, level_lower, &TILE_LEVELS)
        },
    }
}

/// The GRIB search pattern for a tile of `var` at `level`; names are
/// matched without regard to case.
pub fn build_pattern(var: &str, level: &str) -> (r: String)
    ensures
        r@ == tile_pattern(var@, unicode_lower(var@), level@, unicode_lower(level@)),
{
    let vl = to_lower(var);
    let ll = to_lower(level);
    pattern_from_lowered(var, vl.as_str(), level, ll.as_str())
}

/// Variables that take the temperature color styles.
pub open spec fn is_temperature_colormap(b: Seq<char>) -> bool {
    b == "temperature"@ || b == "temp"@ || b == "temperature_f"@ || b == "temperature_c"@
        || b == "temperature_250"@ || b == "temperature_500"@ || b == "temperature_700"@
}

/// The colormap for base colormap `base` under an optional style: the
/// styled variant where one exists, else `base`.
pub open spec fn styled_colormap(base: Seq<char>, style: Option<Seq<char>>) -> Seq<char> {
    match style {
        Some(s) => if s.len() == 0 {
            base
        } else if is_temperature_colormap(base) && s == "nws"@ {
            "temperature_nws"@
        } else if is_temperature_colormap(base) && s == "pivotal"@ {
            "temperature_pivotal"@
        } else if base == "cape"@ && s == "pivotal"@ {
            "cape_pivotal"@
        } else if (base == "wind"@ || base == "winds"@ || base == "winds_sfc"@) && s == "pivotal"@ {
            "wind_pivotal"@
        } else if (base == "nws_reflectivity"@ || base == "reflectivity"@ || base == "refl"@) && s
            == "clean"@ {
            "reflectivity_clean"@
        } else {
            base
        },
        None => base,
    }
}

/// Resolve a colormap name given the base variable colormap and an optional style.
///
/// Style overrides let users request alternate color schemes:
/// - `?style=nws`      → NWS-style colors (e.g., temperature_nws)
/// - `?style=pivotal`  → Professional meteorological style (e.g., temperature_pivotal)
/// - `?style=clean`    → Clean variant for dark backgrounds (e.g., reflectivity_clean)
///
/// If the styled variant doesn't exist, falls back to the base colormap.
pub fn resolve_colormap_static(base: &'static str, style: Option<&str>) -> (r: &'static str)
    ensures
        r@ == styled_colormap(base@, crate::text::opt_chars(style)),
{
    let s: &str = match style {
        Some(s) => s,
        None => return base,
    };
    if s.is_empty() {
        return base;
    }
    let temp = str_eq(base, "temperature") || str_eq(base, "temp") || str_eq(base, "temperature_f")
        || str_eq(base, "temperature_c") || str_eq(base, "temperature_250") || str_eq(
        base,
        "temperature_500",
    ) || str_eq(base, "temperature_700");
    if temp && str_eq(s, "nws") {
        "temperature_nws"
    } else if temp && str_eq(s, "pivotal") {
        "temperature_pivotal"
    } else if str_eq(base, "cape") && str_eq(s, "pivotal") {
        "cape_pivotal"
    } else if (str_eq(base, "wind") || str_eq(base, "winds") || str_eq(base, "winds_sfc")) && str_eq(
        s,
        "pivotal",
    ) {
        "wind_pivotal"
    } else if (str_eq(base, "nws_reflectivity") || str_eq(base, "reflectivity") || str_eq(
        base,
        "refl",
    )) && str_eq(s, "clean") {
        "reflectivity_clean"
    } else {
        base
    }
}

} // verus!

verus! {

/// The result of reading a run parameter "YYYYMMDD/HHz": the date and hour,
/// or the message for the first problem found.
pub open spec fn run_param(s: Seq<char>) -> Result<(Seq<char>, u32), Seq<char>> {
    if !has_slash(s) || has_slash(tail_fields(s)) {
        Err("Invalid run format '"@ + s + "'. Expected YYYYMMDD/HHz"@)
    } else {
        let date = head_field(s);
        let hour_part = tail_fields(s);
        if !(date.len() == 8 && all_digits(date)) {
            Err("Invalid date '"@ + date + "'. Expected YYYYMMDD"@)
        } else {
            match u32_text(trim_suffix_all(trim_suffix_all(hour_part, "z"@), "Z"@)) {
                None => Err("Invalid hour '"@ + hour_part + "'"@),
                Some(h) => if h > 23 {
                    Err("Hour "@ + decimal(h as nat) + " out of range (0-23)"@)
                } else {
                    Ok((date, h))
                },
            }
        }
    }
}

/// Parse a run string like "20260312/02z" into (date, hour).
pub fn parse_run_param(run: &str) -> (r: Result<(String, u32), String>)
    ensures
        match r {
            Ok((d, h)) => run_param(run@) == Ok::<(Seq<char>, u32), Seq<char>>((d@, h)),
            Err(e) => run_param(run@) == Err::<(Seq<char>, u32), Seq<char>>(e@),
        },
{
    let v = chars_of(run);
    let p = slash_from(&v, 0);
    proof {
        assert(v@.skip(0) == run@);
    }
    let q = if p < v.len() { slash_from(&v, p + 1) } else { v.len() };
    if p == v.len() || q < v.len() {
        let mut e = String::new();
        append(&mut e, "Invalid run format '");
        append(&mut e, run);
        append(&mut e, "'. Expected YYYYMMDD/HHz");
        return Err(e);
    }
    let date = string_from_range(&v, 0, p);
    let hour_part = string_from_range(&v, p + 1, v.len());
    proof {
        assert(date@ == head_field(run@));
        assert(hour_part@ == tail_fields(run@));
        assert(hour_part@ == v@.skip(p + 1));
    }
    if !(p == 8 && all_ascii_digits(date.as_str())) {
        let mut e = String::new();
        append(&mut e, "Invalid date '");
        append(&mut e, date.as_str());
        append(&mut e, "'. Expected YYYYMMDD");
        return Err(e);
    }
    let a = trim_end_all(hour_part.as_str(), "z");
    let b = trim_end_all(a.as_str(), "Z");
    match parse_u32(b.as_str()) {
        None => {
            let mut e = String::new();
            append(&mut e, "Invalid hour '");
            append(&mut e, hour_part.as_str());
            append(&mut e, "'");
            Err(e)
        },
        Some(h) => {
            if h > 23 {
                let mut e = String::new();
                append(&mut e, "Hour ");
                push_decimal(&mut e, h as u64);
                append(&mut e, " out of range (0-23)");
                Err(e)
            } else {
                Ok((date, h))
            }
        },
    }
}

} // verus!

verus! {

/// Legend font: digits 0-9, then minus, then point; seven rows of five
/// pixels, the leftmost pixel in bit 4.
pub const FONT_5X7: [[u8; 7]; 12] = [
    [0b01110, 0b10001, 0b10011, 0b10101, 0b11001, 0b10001, 0b01110],
    [0b00100, 0b01100, 0b00100, 0b00100, 0b00100, 0b00100, 0b01110],
    [0b01110, 0b10001, 0b00001, 0b00110, 0b01000, 0b10000, 0b11111],
    [0b01110, 0b10001, 0b00001, 0b00110, 0b00001, 0b10001, 0b01110],
    [0b00010, 0b00110, 0b01010, 0b10010, 0b11111, 0b00010, 0b00010],
    [0b11111, 0b10000, 0b11110, 0b00001, 0b00001, 0b10001, 0b01110],
    [0b00110, 0b01000, 0b10000, 0b11110, 0b10001, 0b10001, 0b01110],
    [0b11111, 0b00001, 0b00010, 0b00100, 0b01000, 0b01000, 0b01000],
    [0b01110, 0b10001, 0b10001, 0b01110, 0b10001, 0b10001, 0b01110],
    [0b01110, 0b10001, 0b10001, 0b01111, 0b00001, 0b00010, 0b01100],
    [0b00000, 0b00000, 0b00000, 0b11111, 0b00000, 0b00000, 0b00000],
    [0b00000, 0b00000, 0b00000, 0b00000, 0b00000, 0b01100, 0b01100],
];

/// Position in the legend font of the glyph for `c`, if it has one.
pub open spec fn font_index(c: char) -> Option<int> {
    if '0' <= c && c <= '9' {
        Some(c as int - 48)
    } else if c == '-' {
        Some(10)
    } else if c == '.' {
        Some(11)
    } else {
        None
    }
}

/// Position in the legend font of the glyph for `c`, if it has one.
pub fn char_to_font_index(c: char) -> (r: Option<usize>)
    ensures
        match r {
            Some(i) => font_index(c) == Some(i as int),
            None => font_index(c) is None,
        },
{
    if '0' <= c && c <= '9' {
        Some((c as u32 - 48) as usize)
    } else if c == '-' {
        Some(10)
    } else if c == '.' {
        Some(11)
    } else {
        None
    }
}

/// Pixels of the legend glyph for `ch` with its top-left corner at `(x, y)`.
pub open spec fn legend_char_points(x: int, y: int, ch: char) -> Seq<Point> {
    match font_index(ch) {
        Some(i) => glyph5_points(FONT_5X7[i], x, y, 0),
        None => Seq::empty(),
    }
}

/// Pixels of `text` in the legend font from `(x, y)`, each character six
/// pixels right of the last.
pub open spec fn legend_text_points(x: int, y: int, text: Seq<char>) -> Seq<Point>
    decreases text.len(),
{
    if text.len() == 0 {
        Seq::empty()
    } else {
        legend_char_points(x, y, text[0]) + legend_text_points(x + 6, y, text.drop_first())
    }
}

/// Draw a single character at (cx, cy) into an RGBA pixel buffer; pixels
/// outside the `width` by `height` image are skipped.
pub fn draw_char(
    pixels: &mut [u8],
    width: usize,
    height: usize,
    cx: usize,
    cy: usize,
    ch: char,
    color: (u8, u8, u8, u8),
)
    requires
        width * height * 4 <= old(pixels)@.len(),
    ensures
        final(pixels)@ == put_all(
            old(pixels)@,
            width as int,
            height as int,
            legend_char_points(cx as int, cy as int, ch),
            [color.0, color.1, color.2, color.3],
        ),
        final(pixels)@.len() == old(pixels)@.len(),
{
    let idx = match char_to_font_index(ch) {
        Some(i) => i,
        None => return,
    };
    let n = pixels.len();
    assert(width * height * 4 <= n);
    proof {
        lemma_put_all_len(
            pixels@,
            width as int,
            height as int,
            legend_char_points(cx as int, cy as int, ch),
            [color.0, color.1, color.2, color.3],
        );
    }
    put_glyph(
        pixels,
        width,
        height,
        FONT_5X7[idx],
        cx as i128,
        cy as i128,
        [color.0, color.1, color.2, color.3],
    );
}

/// Draw a string at (x, y) in the legend font, six pixels per character.
pub fn draw_text(
    pixels: &mut [u8],
    width: usize,
    height: usize,
    x: usize,
    y: usize,
    text: &str,
    color: (u8, u8, u8, u8),
)
    requires
        width * height * 4 <= old(pixels)@.len(),
        x + 6 * text@.len() <= usize::MAX,
    ensures
        final(pixels)@ == put_all(
            old(pixels)@,
            width as int,
            height as int,
            legend_text_points(x as int, y as int, text@),
            [color.0, color.1, color.2, color.3],
        ),
{
    let ghost c = [color.0, color.1, color.2, color.3];
    let chars = chars_of(text);
    let mut i: usize = 0;
    let mut cx: usize = x;
    assert(text@.skip(0) == text@);
    while i < chars.len()
        invariant
            i <= chars.len(),
            chars@ == text@,
            cx == x + 6 * i,
            x + 6 * text@.len() <= usize::MAX,
            width * height * 4 <= old(pixels)@.len(),
            pixels@.len() == old(pixels)@.len(),
            c == [color.0, color.1, color.2, color.3],
            put_all(old(pixels)@, width as int, height as int, legend_text_points(x as int, y as int, text@), c)
                == put_all(pixels@, width as int, height as int, legend_text_points(cx as int, y as int, text@.skip(i as int)), c),
        decreases chars.len() - i,
    {
        let ghost rest = text@.skip(i as int);
        proof {
            assert(rest[0] == chars@[i as int]);
            assert(rest.drop_first() == text@.skip(i + 1));
            lemma_put_all_concat(
                pixels@,
                width as int,
                height as int,
                legend_char_points(cx as int, y as int, chars@[i as int]),
                legend_text_points(cx + 6, y as int, rest.drop_first()),
                c,
            );
        }
        draw_char(pixels, width, height, cx, y, chars[i], color);
        cx += 6;
        i += 1;
    }
    proof {
        assert(text@.skip(chars.len() as int) =~= Seq::<char>::empty());
    }
}

} // verus!

verus! {

/// The run parameter for date `d` and hour `h` in the documented form
/// "YYYYMMDD/HHz".
pub open spec fn run_text(d: Seq<char>, h: nat) -> Seq<char> {
    d + "/"@ + decimal_padded(h, 2) + "z"@
}

/// A two-digit hour reads back as itself.
proof fn lemma_two_digit_hour(h: nat)
    requires
        h <= 23,
    ensures
        decimal_padded(h, 2).len() == 2,
        all_digits(decimal_padded(h, 2)),
        digits_value(decimal_padded(h, 2)) == h,
{
    let p = decimal_padded(h, 2);
    if h < 10 {
        assert(decimal(h) == seq![digit_char(h)]);
        assert(zeros(1) =~= seq!['0']);
        assert(p =~= seq!['0', digit_char(h)]);
        assert(p.drop_last() =~= seq!['0']);
        assert(digits_value(seq!['0']) == 0) by {
            let z = seq!['0'];
            assert(z.drop_last() =~= Seq::<char>::empty());
            assert(digits_value(z.drop_last()) == 0);
            assert(z.last() == '0');
            assert(('0' as nat) == 48);
        }
        assert(digit_char(h) as nat == h + 48);
    } else {
        assert(decimal(h / 10) == seq![digit_char(h / 10)]);
        assert(decimal(h) == seq![digit_char(h / 10)].push(digit_char(h % 10)));
        assert(p =~= seq![digit_char(h / 10), digit_char(h % 10)]);
        assert(p.drop_last() =~= seq![digit_char(h / 10)]);
        assert(digit_char(h / 10) as nat == h / 10 + 48);
        assert(digit_char(h % 10) as nat == h % 10 + 48);
        assert(digits_value(seq![digit_char(h / 10)]) == h / 10) by {
            let z = seq![digit_char(h / 10)];
            assert(z.drop_last() =~= Seq::<char>::empty());
            assert(digits_value(z.drop_last()) == 0);
            assert(z.last() == digit_char(h / 10));
        }
    }
}

/// A run parameter written as "YYYYMMDD/HHz", for an eight-digit date and
/// an hour of the day, reads back as that date and hour.
pub proof fn law_run_param_reads_documented_form(d: Seq<char>, h: nat)
    requires
        d.len() == 8,
        all_digits(d),
        h <= 23,
    ensures
        run_param(run_text(d, h)) == Ok::<(Seq<char>, u32), Seq<char>>((d, h as u32)),
{
    reveal_strlit("/");
    reveal_strlit("z");
    reveal_strlit("Z");
    let hh = decimal_padded(h, 2);
    lemma_two_digit_hour(h);
    let rest = hh + "z"@;
    let s = run_text(d, h);
    assert(s =~= d + seq!['/'] + rest);
    assert forall|j: int| 0 <= j < 8 implies s[j] != '/' by {
        assert(s[j] == d[j]);
        assert(is_digit(d[j]));
    }
    assert(s[8] == '/');
    crate::tile_cache::lemma_slash_pos_at(s, 8);
    assert(s.skip(9) =~= rest);
    assert(s.take(8) =~= d);
    assert(is_digit(hh[0]) && is_digit(hh[1]));
    assert forall|j: int| 0 <= j < rest.len() implies rest[j] != '/' by {
        if j < 2 {
            assert(rest[j] == hh[j]);
        }
    }
    crate::tile_cache::lemma_slash_pos_at(rest, rest.len() as int);
    assert(tail_fields(s) == rest);
    assert(head_field(s) == d);
    assert(rest.subrange(2, 3) =~= "z"@);
    assert(has_suffix(rest, "z"@));
    assert(rest.subrange(0, rest.len() - 1) =~= hh);
    assert(!has_suffix(hh, "z"@)) by {
        if has_suffix(hh, "z"@) {
            assert(hh.subrange(1, 2)[0] == hh[1]);
        }
    }
    assert(trim_suffix_all(rest, "z"@) == trim_suffix_all(hh, "z"@));
    assert(trim_suffix_all(hh, "z"@) == hh);
    assert(!has_suffix(hh, "Z"@)) by {
        if has_suffix(hh, "Z"@) {
            assert(hh.subrange(1, 2)[0] == hh[1]);
        }
    }
    assert(trim_suffix_all(hh, "Z"@) == hh);
    assert(u32_text(hh) == Some(h as u32));
}

} // verus!

verus! {

/// A number in a tile path: the `u32` the text spells once `p` is trimmed
/// from it, or 0 when it spells none.
pub open spec fn path_number(text: Seq<char>) -> u32 {
    match u32_text(text) {
        Some(n) => n,
        None => 0,
    }
}

/// The forecast hour and row of a tile path "…/f06/z/x/12.png": the hour
/// without its leading 'f's and the row without its trailing ".png"s, each
/// 0 when not a number.
pub fn tile_path_numbers(fhour_str: &str, y_png: &str) -> (r: (u32, u32))
    ensures
        r.0 == path_number(trim_prefix_all(fhour_str@, "f"@)),
        r.1 == path_number(trim_suffix_all(y_png@, ".png"@)),
{
    let y_text = trim_end_all(y_png, ".png");
    let y: u32 = match parse_u32(y_text.as_str()) {
        Some(n) => n,
        None => 0,
    };
    let f_text = trim_start_all(fhour_str, "f");
    let fhour: u32 = match parse_u32(f_text.as_str()) {
        Some(n) => n,
        None => 0,
    };
    (fhour, y)
}

/// Seconds a model run found for a model is trusted.
pub const RUN_TTL_SECS: u64 = 120;

/// Seconds a downloaded field is kept.
pub const FIELD_TTL_SECS: u64 = 300;

/// A field's key: model, variable, level and forecast hour.
pub type FieldKey = (String, String, String, u32);

/// The (model, date, hour) of each run entry still fresh at `now`.
pub open spec fn fresh_runs(
    s: Seq<Entry<Seq<char>, (String, u32)>>,
    now: u64,
) -> Seq<(Seq<char>, Seq<char>, u32)> {
    fresh_only(s, now, RUN_TTL_SECS).map_values(
        |e: Entry<Seq<char>, (String, u32)>| (e.0, e.1.0@, e.1.1),
    )
}

/// The latest run found for each model, and downloaded fields by key.
/// Storing a field drops the expired ones first; runs are only replaced.
pub struct FieldCache<V> {
    runs: KeyedCache<String, (String, u32)>,
    fields: KeyedCache<FieldKey, V>,
}

impl<V> FieldCache<V> {
    /// The runs, (date, hour) by model, oldest store first.
    pub closed spec fn runs_view(&self) -> Seq<Entry<Seq<char>, (String, u32)>> {
        self.runs.view()
    }

    /// The fields by key, oldest store first.
    pub closed spec fn fields_view(&self) -> Seq<Entry<(Seq<char>, Seq<char>, Seq<char>, u32), V>> {
        self.fields.view()
    }

    #[verifier::type_invariant]
    spec fn keeps_field_policy(&self) -> bool {
        &&& self.runs.ttl() == RUN_TTL_SECS
        &&& self.runs.limit() is None
        &&& self.fields.ttl() == FIELD_TTL_SECS
        &&& self.fields.limit() == Some(0usize)
    }

    /// An empty cache.
    pub fn new() -> (r: Self)
        ensures
            r.runs_view() == Seq::<Entry<Seq<char>, (String, u32)>>::empty(),
            r.fields_view() == Seq::<Entry<(Seq<char>, Seq<char>, Seq<char>, u32), V>>::empty(),
    {
        FieldCache {
            runs: KeyedCache::new(RUN_TTL_SECS, None),
            fields: KeyedCache::new(FIELD_TTL_SECS, Some(0)),
        }
    }

    /// The (date, hour) of the run found for `model`, if still fresh at
    /// `now`.
    pub fn get_run(&self, model: &str, now: u64) -> (r: Option<(String, u32)>)
        ensures
            match find(self.runs_view(), model@) {
                Some((v, t)) => if is_fresh(t, now, RUN_TTL_SECS) {
                    r == Some(v)
                } else {
                    r is None
                },
                None => r is None,
            },
    {
        proof {
            use_type_invariant(self);
        }
        let key = model.to_string();
        match self.runs.get(&key, now) {
            Some(run) => Some((run.0.clone(), run.1)),
            None => None,
        }
    }

    /// Record that `model`'s latest run is `date` at `hour`, found at `now`.
    pub fn put_run(&mut self, model: &str, date: String, hour: u32, now: u64)
        ensures
            final(self).runs_view() == stored(old(self).runs_view(), model@, (date, hour), now, RUN_TTL_SECS, None),
            final(self).fields_view() == old(self).fields_view(),
            distinct_keys(final(self).runs_view()),
    {
        proof {
            use_type_invariant(&*self);
        }
        let key = model.to_string();
        let mut runs = KeyedCache::new(RUN_TTL_SECS, None);
        std::mem::swap(&mut runs, &mut self.runs);
        runs.put(key, (date, hour), now);
        self.runs = runs;
    }

    /// Every run still fresh at `now`, as (model, date, hour), oldest
    /// record first.
    pub fn get_all_runs(&self, now: u64) -> (r: Vec<(String, String, u32)>)
        ensures
            r@.map_values(|t: (String, String, u32)| (t.0@, t.1@, t.2)) == fresh_runs(self.runs_view(), now),
    {
        proof {
            use_type_invariant(self);
        }
        let ghost s = self.runs_view();
        let mut out: Vec<(String, String, u32)> = Vec::new();
        let mut i: usize = 0;
        while i < self.runs.len()
            invariant
                i <= s.len(),
                s == self.runs.view(),
                self.runs.ttl() == RUN_TTL_SECS,
                out@.map_values(|t: (String, String, u32)| (t.0@, t.1@, t.2))
                    == fresh_only(s.take(i as int), now, RUN_TTL_SECS).map_values(
                    |e: Entry<Seq<char>, (String, u32)>| (e.0, e.1.0@, e.1.1),
                ),
            decreases s.len() - i,
        {
            proof {
                lemma_fresh_only_step(s, i as int, now, RUN_TTL_SECS);
            }
            let (model, run, t) = self.runs.entry(i);
            if still_fresh(t, now, RUN_TTL_SECS) {
                let ghost before = out@.map_values(|t: (String, String, u32)| (t.0@, t.1@, t.2));
                out.push((model.clone(), run.0.clone(), run.1));
                proof {
                    let e = s[i as int];
                    assert(out@.map_values(|t: (String, String, u32)| (t.0@, t.1@, t.2)) =~= before.push(
                        (e.0, e.1.0@, e.1.1),
                    ));
                    assert(fresh_only(s.take(i as int), now, RUN_TTL_SECS).push(e).map_values(
                        |e: Entry<Seq<char>, (String, u32)>| (e.0, e.1.0@, e.1.1),
                    ) =~= before.push((e.0, e.1.0@, e.1.1)));
                }
            }
            i += 1;
        }
        proof {
            assert(s.take(s.len() as int) =~= s);
        }
        out
    }

    /// The field stored under `key`, if still fresh at `now`.
    pub fn get_field(&self, key: &FieldKey, now: u64) -> (r: Option<&V>)
        ensures
            match find(self.fields_view(), key@) {
                Some((v, t)) => if is_fresh(t, now, FIELD_TTL_SECS) {
                    r == Some(&v)
                } else {
                    r is None
                },
                None => r is None,
            },
    {
        proof {
            use_type_invariant(self);
        }
        self.fields.get(key, now)
    }

    /// Store `field` under `key` at `now`, after dropping expired fields.
    pub fn put_field(&mut self, key: FieldKey, field: V, now: u64)
        ensures
            final(self).fields_view() == stored(old(self).fields_view(), key@, field, now, FIELD_TTL_SECS, Some(0usize)),
            final(self).runs_view() == old(self).runs_view(),
            distinct_keys(final(self).fields_view()),
    {
        proof {
            use_type_invariant(&*self);
        }
        let mut fields = KeyedCache::new(FIELD_TTL_SECS, Some(0));
        std::mem::swap(&mut fields, &mut self.fields);
        fields.put(key, field, now);
        self.fields = fields;
    }
}

/// The cache key of a field request, as views: model, variable and level
/// lower-cased and the forecast hour; for a request of a given run
/// ("YYYYMMDD/HHz") the model part is "model_YYYYMMDD_HHz", so that runs
/// do not share entries. The error is the one the run text gives.
pub open spec fn field_key_of(
    model: Seq<char>,
    var: Seq<char>,
    level: Seq<char>,
    fhour: u32,
    run: Option<Seq<char>>,
) -> Result<(Seq<char>, Seq<char>, Seq<char>, u32), Seq<char>> {
    match run {
        None => Ok((unicode_lower(model), unicode_lower(var), unicode_lower(level), fhour)),
        Some(rs) => match run_param(rs) {
            Err(e) => Err(e),
            Ok((d, h)) => Ok((
                unicode_lower(model) + "_"@ + d + "_"@ + decimal_padded(h as nat, 2) + "z"@,
                unicode_lower(var),
                unicode_lower(level),
                fhour,
            )),
        },
    }
}

/// The cache key of a field request (see `field_key_of`).
pub fn field_key(model: &str, var: &str, level: &str, fhour: u32, run: Option<&str>) -> (r: Result<FieldKey, String>)
    ensures
        match r {
            Ok(k) => field_key_of(model@, var@, level@, fhour, opt_chars(run)) == Ok::<
                (Seq<char>, Seq<char>, Seq<char>, u32),
                Seq<char>,
            >(k@),
            Err(e) => field_key_of(model@, var@, level@, fhour, opt_chars(run)) == Err::<
                (Seq<char>, Seq<char>, Seq<char>, u32),
                Seq<char>,
            >(e@),
        },
{
    let m = to_lower(model);
    let v = to_lower(var);
    let l = to_lower(level);
    match run {
        None => Ok((m, v, l, fhour)),
        Some(rs) => match parse_run_param(rs) {
            Err(e) => Err(e),
            Ok((d, h)) => {
                let mut k = m;
                append(&mut k, "_");
                append(&mut k, d.as_str());
                append(&mut k, "_");
                push_decimal_padded(&mut k, h as u64, 2);
                append(&mut k, "z");
                proof {
                    reveal_strlit("_");
                    reveal_strlit("z");
                }
                Ok((k, v, l, fhour))
            },
        },
    }
}

/// The value range of a colormap: fixed bounds in hundredths of the
/// field's unit, or the range of the data itself.
#[derive(Debug, Clone, Copy, PartialEq, Eq, Structural)]
pub enum ValueRange {
    Fixed(i64, i64),
    FromData,
}

/// The colormap and value range for a variable (matched in lower case)
/// whose values are in `units`: temperatures and dew points in kelvin when
/// the units name "K"; height and unknown variables take their range from
/// the data.
pub open spec fn colormap_range_for(var: Seq<char>, units: Seq<char>) -> (Seq<char>, ValueRange) {
    let v = unicode_lower(var);
    if v == "cape"@ {
        ("cape"@, ValueRange::Fixed(0i64, 500000i64))
    } else if v == "cin"@ {
        ("cape"@, ValueRange::Fixed(-50000i64, 0i64))
    } else if v == "reflectivity"@ || v == "refl"@ || v == "refc"@ {
        ("nws_reflectivity"@, ValueRange::Fixed(-1000i64, 7500i64))
    } else if v == "temperature"@ || v == "temp"@ || v == "t"@ {
        ("temperature"@, if contains_seq(units, "K"@) { ValueRange::Fixed(23315i64, 32315i64) } else { ValueRange::Fixed(-4000i64, 5000i64) })
    } else if v == "dewpoint"@ || v == "td"@ || v == "dew"@ {
        ("dewpoint"@, if contains_seq(units, "K"@) { ValueRange::Fixed(24315i64, 30315i64) } else { ValueRange::Fixed(-3000i64, 3000i64) })
    } else if v == "wind_u"@ || v == "u"@ || v == "ugrd"@ || v == "wind_v"@ || v == "v"@ || v == "vgrd"@ {
        ("wind"@, ValueRange::Fixed(-5000i64, 5000i64))
    } else if v == "gust"@ || v == "wind_speed"@ || v == "wspd"@ || v == "wind"@ {
        ("wind"@, ValueRange::Fixed(0i64, 5000i64))
    } else if v == "helicity"@ || v == "hlcy"@ || v == "srh"@ {
        ("helicity"@, ValueRange::Fixed(0i64, 50000i64))
    } else if v == "updraft_helicity"@ || v == "uh"@ || v == "mxuphl"@ {
        ("helicity"@, ValueRange::Fixed(0i64, 20000i64))
    } else if v == "rh"@ || v == "relative_humidity"@ {
        ("relative_humidity"@, ValueRange::Fixed(0i64, 10000i64))
    } else if v == "pressure"@ || v == "pres"@ {
        ("pressure"@, ValueRange::Fixed(9500000i64, 10500000i64))
    } else if v == "mslp"@ {
        ("pressure"@, ValueRange::Fixed(98000i64, 104000i64))
    } else if v == "visibility"@ || v == "vis"@ {
        ("visibility"@, ValueRange::Fixed(0i64, 3000000i64))
    } else if v == "precip"@ || v == "precipitation"@ || v == "apcp"@ {
        ("precipitation"@, ValueRange::Fixed(0i64, 5000i64))
    } else if v == "pwat"@ || v == "precipitable_water"@ {
        ("precipitation"@, ValueRange::Fixed(0i64, 7500i64))
    } else if v == "cloud"@ || v == "cloud_cover"@ || v == "tcc"@ || v == "tcdc"@ {
        ("cloud_cover"@, ValueRange::Fixed(0i64, 10000i64))
    } else if v == "snow"@ || v == "snowfall"@ || v == "weasd"@ {
        ("snow"@, ValueRange::Fixed(0i64, 5000i64))
    } else {
        ("temperature"@, ValueRange::FromData)
    }
}

/// The colormap and value range for a variable (see `colormap_range_for`).
pub fn select_colormap_and_range(var: &str, units: &str) -> (r: (&'static str, ValueRange))
    ensures
        (r.0@, r.1) == colormap_range_for(var@, units@),
{
    let lowered = to_lower(var);
    let s = lowered.as_str();
    if str_eq(s, "cape") {
        ("cape", ValueRange::Fixed(0i64, 500000i64))
    } else if str_eq(s, "cin") {
        ("cape", ValueRange::Fixed(-50000i64, 0i64))
    } else if str_eq(s, "reflectivity") || str_eq(s, "refl") || str_eq(s, "refc") {
        ("nws_reflectivity", ValueRange::Fixed(-1000i64, 7500i64))
    } else if str_eq(s, "temperature") || str_eq(s, "temp") || str_eq(s, "t") {
        ("temperature", if str_contains(units, "K") { ValueRange::Fixed(23315i64, 32315i64) } else { ValueRange::Fixed(-4000i64, 5000i64) })
    } else if str_eq(s, "dewpoint") || str_eq(s, "td") || str_eq(s, "dew") {
        ("dewpoint", if str_contains(units, "K") { ValueRange::Fixed(24315i64, 30315i64) } else { ValueRange::Fixed(-3000i64, 3000i64) })
    } else if str_eq(s, "wind_u") || str_eq(s, "u") || str_eq(s, "ugrd") || str_eq(s, "wind_v") || str_eq(s, "v") || str_eq(s, "vgrd") {
        ("wind", ValueRange::Fixed(-5000i64, 5000i64))
    } else if str_eq(s, "gust") || str_eq(s, "wind_speed") || str_eq(s, "wspd") || str_eq(s, "wind") {
        ("wind", ValueRange::Fixed(0i64, 5000i64))
    } else if str_eq(s, "helicity") || str_eq(s, "hlcy") || str_eq(s, "srh") {
        ("helicity", ValueRange::Fixed(0i64, 50000i64))
    } else if str_eq(s, "updraft_helicity") || str_eq(s, "uh") || str_eq(s, "mxuphl") {
        ("helicity", ValueRange::Fixed(0i64, 20000i64))
    } else if str_eq(s, "rh") || str_eq(s, "relative_humidity") {
        ("relative_humidity", ValueRange::Fixed(0i64, 10000i64))
    } else if str_eq(s, "pressure") || str_eq(s, "pres") {
        ("pressure", ValueRange::Fixed(9500000i64, 10500000i64))
    } else if str_eq(s, "mslp") {
        ("pressure", ValueRange::Fixed(98000i64, 104000i64))
    } else if str_eq(s, "visibility") || str_eq(s, "vis") {
        ("visibility", ValueRange::Fixed(0i64, 3000000i64))
    } else if str_eq(s, "precip") || str_eq(s, "precipitation") || str_eq(s, "apcp") {
        ("precipitation", ValueRange::Fixed(0i64, 5000i64))
    } else if str_eq(s, "pwat") || str_eq(s, "precipitable_water") {
        ("precipitation", ValueRange::Fixed(0i64, 7500i64))
    } else if str_eq(s, "cloud") || str_eq(s, "cloud_cover") || str_eq(s, "tcc") || str_eq(s, "tcdc") {
        ("cloud_cover", ValueRange::Fixed(0i64, 10000i64))
    } else if str_eq(s, "snow") || str_eq(s, "snowfall") || str_eq(s, "weasd") {
        ("snow", ValueRange::Fixed(0i64, 5000i64))
    } else {
        ("temperature", ValueRange::FromData)
    }
}

} // verus!
