//! Point queries: the GRIB search pattern for a variable and level.
use vstd::prelude::*;
use crate::text::{table_get, table_lookup, to_lower, unicode_lower};
use crate::tiles::{level_pattern, with_level};

verus! {

/// GRIB names of the variables a point query can ask for.
pub const POINT_VARIABLES: [(&'static str, &'static str); 35] = [
    ("temperature", "TMP"),
    ("temp", "TMP"),
    ("t", "TMP"),
    ("dewpoint", "DPT"),
    ("td", "DPT"),
    ("dew", "DPT"),
    ("wind_u", "UGRD"),
    ("u", "UGRD"),
    ("ugrd", "UGRD"),
    ("wind_v", "VGRD"),
    ("v", "VGRD"),
    ("vgrd", "VGRD"),
    ("gust", "GUST"),
    ("pressure", "PRES"),
    ("pres", "PRES"),
    ("mslp", "PRES"),
    ("cape", "CAPE"),
    ("cin", "CIN"),
    ("reflectivity", "REFC"),
    ("refl", "REFC"),
    ("refc", "REFC"),
    ("visibility", "VIS"),
    ("vis", "VIS"),
    ("rh", "RH"),
    ("relative_humidity", "RH"),
    ("height", "HGT"),
    ("hgt", "HGT"),
    ("precip", "APCP"),
    ("precipitation", "APCP"),
    ("apcp", "APCP"),
    ("helicity", "HLCY"),
    ("hlcy", "HLCY"),
    ("srh", "HLCY"),
    ("pwat", "PWAT"),
    ("precipitable_water", "PWAT"),
];

/// GRIB names of the levels a point query can ask for.
pub const POINT_LEVELS: [(&'static str, &'static str); 6] = [
    ("surface", "surface"),
    ("sfc", "surface"),
    ("2m", "2 m above ground"),
    ("10m", "10 m above ground"),
    ("atmosphere", "entire atmosphere"),
    ("entire", "entire atmosphere"),
];

/// The GRIB search pattern for a point query of `var` at `level`, given
/// their lower-case forms: the variable's GRIB name (or `var` itself) at
/// the level.
pub open spec fn point_pattern(
    var: Seq<char>,
    var_lower: Seq<char>,
    level: Seq<char>,
    level_lower: Seq<char>,
) -> Seq<char> {
    let gv = match table_get(POINT_VARIABLES@, var_lower) {
        Some(n) => n,
        None => var,
    };
    with_level(gv, level, level_lower, POINT_LEVELS@)
}

/// The point-query search pattern, from the lower-case forms of the
/// variable and level already computed.
pub fn point_pattern_from_lowered(var: &str, var_lower: &str, level: &str, level_lower: &str) -> (r:
    String)
    ensures
        r@ == point_pattern(var@, var_lower@, level@, level_lower@),
{
    let gv: &str = match table_lookup(&POINT_VARIABLES, var_lower) {
        Some(n) => n,
        None => var,
    };
    level_pattern(gv, level, level_lower, &POINT_LEVELS)
}

/// The GRIB search pattern for a point query of `var` at `level`; names are
/// matched without regard to case.
pub fn build_pattern(var: &str, level: &str) -> (r: String)
    ensures
        r@ == point_pattern(var@, unicode_lower(var@), level@, unicode_lower(level@)),
{
    let vl = to_lower(var);
    let ll = to_lower(level);
    point_pattern_from_lowered(var, vl.as_str(), level, ll.as_str())
}

} // verus!
