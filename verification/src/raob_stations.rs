//! Upper-air radiosonde observation stations (US network).
use vstd::prelude::*;
use crate::text::{all_ascii, ascii_upper_str, str_eq, to_upper, unicode_upper};

verus! {

/// A radiosonde station: WMO number, ICAO identifier, name, state,
/// latitude and longitude in hundredths of a degree, and elevation in
/// metres.
#[derive(Clone, Copy, Debug)]
pub struct RaobStation {
    pub wmo: &'static str,
    pub icao: &'static str,
    pub name: &'static str,
    pub state: &'static str,
    pub lat_centi: i32,
    pub lon_centi: i32,
    pub elevation_m: i32,
}

/// The radiosonde stations of the US network, as (WMO number, ICAO
/// identifier, name, state, latitude and longitude in hundredths of a
/// degree, elevation in metres).
pub const RAOB_STATIONS: [(&'static str, &'static str, &'static str, &'static str, i32, i32, i32); 92] = [
    ("72201", "KEY", "Key West", "FL", 2455, -8175, 1),
    ("72202", "MFL", "Miami", "FL", 2575, -8038, 5),
    ("72206", "JAX", "Jacksonville", "FL", 3050, -8170, 10),
    ("72210", "TBW", "Tampa Bay", "FL", 2770, -8240, 13),
    ("72214", "TLH", "Tallahassee", "FL", 3045, -8430, 53),
    ("72215", "VPS", "Valparaiso / Eglin AFB", "FL", 3048, -8652, 26),
    ("72230", "BMX", "Birmingham", "AL", 3317, -8677, 178),
    ("72233", "FFC", "Peachtree City", "GA", 3337, -8457, 246),
    ("72235", "JAN", "Jackson", "MS", 3232, -9008, 101),
    ("72240", "LIX", "Slidell", "LA", 3033, -8983, 8),
    ("72248", "SHV", "Shreveport", "LA", 3245, -9385, 79),
    ("72208", "CHS", "Charleston", "SC", 3290, -8003, 15),
    ("72311", "AHN", "Athens", "GA", 3395, -8333, 246),
    ("72293", "MIA", "Miami NWS", "FL", 2575, -8038, 5),
    ("72327", "BNA", "Nashville", "TN", 3625, -8657, 180),
    ("72250", "BRO", "Brownsville", "TX", 2592, -9742, 7),
    ("72251", "CRP", "Corpus Christi", "TX", 2777, -9750, 14),
    ("72261", "DRT", "Del Rio", "TX", 2937, -10092, 313),
    ("72265", "MAF", "Midland", "TX", 3195, -10218, 873),
    ("72340", "LCH", "Lake Charles", "LA", 3012, -9322, 10),
    ("72353", "OUN", "Norman", "OK", 3518, -9744, 362),
    ("72357", "LMN", "Lamont", "OK", 3661, -9749, 315),
    ("72363", "AMA", "Amarillo", "TX", 3523, -10170, 1099),
    ("72364", "FWD", "Fort Worth", "TX", 3283, -9730, 196),
    ("72318", "LZK", "Little Rock", "AR", 3483, -9226, 78),
    ("72365", "ABQ", "Albuquerque", "NM", 3504, -10662, 1619),
    ("72274", "TUS", "Tucson", "AZ", 3223, -11095, 779),
    ("72376", "FGZ", "Flagstaff", "AZ", 3523, -11182, 2192),
    ("74389", "EPZ", "Santa Teresa", "NM", 3187, -10670, 1252),
    ("74455", "TWC", "Tucson NWS", "AZ", 3223, -11095, 779),
    ("74494", "VEF", "Las Vegas", "NV", 3605, -11518, 640),
    ("72388", "VBG", "Vandenberg AFB", "CA", 3475, -12057, 121),
    ("72393", "NKX", "San Diego / Miramar", "CA", 3285, -11712, 128),
    ("72493", "OAK", "Oakland", "CA", 3775, -12222, 6),
    ("72489", "REV", "Reno", "NV", 3957, -11980, 1516),
    ("72305", "MHX", "Morehead City", "NC", 3478, -7688, 11),
    ("72317", "GSO", "Greensboro", "NC", 3608, -7995, 277),
    ("72326", "RNK", "Blacksburg", "VA", 3721, -8041, 654),
    ("72402", "WAL", "Wallops Island", "VA", 3793, -7548, 13),
    ("72403", "IAD", "Sterling", "VA", 3898, -7748, 86),
    ("72426", "ILN", "Wilmington", "OH", 3942, -8382, 317),
    ("72440", "ILX", "Lincoln", "IL", 4015, -8934, 178),
    ("72520", "PIT", "Pittsburgh", "PA", 4053, -8023, 357),
    ("72476", "SGF", "Springfield", "MO", 3724, -9340, 387),
    ("72456", "TOP", "Topeka", "KS", 3907, -9562, 270),
    ("72451", "DDC", "Dodge City", "KS", 3777, -9997, 790),
    ("72469", "DNR", "Denver", "CO", 3977, -10488, 1625),
    ("72558", "OAX", "Omaha / Valley", "NE", 4132, -9637, 350),
    ("72562", "LBF", "North Platte", "NE", 4113, -10068, 849),
    ("72550", "DVN", "Davenport", "IA", 4162, -9058, 229),
    ("72501", "OKX", "Upton", "NY", 4087, -7287, 20),
    ("72518", "ALB", "Albany", "NY", 4270, -7383, 93),
    ("72528", "BUF", "Buffalo", "NY", 4293, -7873, 218),
    ("72606", "PWM", "Portland", "ME", 4365, -7032, 19),
    ("72607", "GYX", "Gray", "ME", 4389, -7026, 125),
    ("72612", "CHH", "Chatham", "MA", 4167, -6997, 16),
    ("72712", "CAR", "Caribou", "ME", 4687, -6802, 191),
    ("72513", "PBZ", "Pittsburgh NWS", "PA", 4053, -8022, 357),
    ("72514", "AVP", "Wilkes-Barre / Scranton", "PA", 4134, -7573, 289),
    ("72634", "ABR", "Aberdeen", "SD", 4545, -9842, 396),
    ("72532", "DTX", "White Lake / Detroit", "MI", 4270, -8347, 329),
    ("72546", "GRB", "Green Bay", "WI", 4448, -8813, 214),
    ("72645", "MPX", "Chanhassen", "MN", 4485, -9357, 287),
    ("72654", "DLH", "Duluth", "MN", 4683, -9218, 432),
    ("72655", "FSD", "Sioux Falls", "SD", 4358, -9673, 435),
    ("72632", "BIS", "Bismarck", "ND", 4677, -10075, 506),
    ("72649", "UNR", "Rapid City", "SD", 4407, -10321, 1030),
    ("72659", "GGW", "Glasgow", "MT", 4821, -10663, 694),
    ("72662", "TFX", "Great Falls", "MT", 4746, -11138, 1130),
    ("72672", "RIW", "Riverton", "WY", 4306, -10848, 1694),
    ("72572", "SLC", "Salt Lake City", "UT", 4077, -11197, 1288),
    ("72576", "GJT", "Grand Junction", "CO", 3912, -10853, 1475),
    ("72582", "BOI", "Boise", "ID", 4357, -11622, 874),
    ("72764", "MSO", "Missoula", "MT", 4692, -11409, 972),
    ("72747", "ELY", "Ely", "NV", 3928, -11485, 1909),
    ("72597", "MFR", "Medford", "OR", 4237, -12287, 405),
    ("72694", "SLE", "Salem", "OR", 4492, -12302, 61),
    ("72776", "OTX", "Spokane", "WA", 4768, -11763, 728),
    ("72786", "UIL", "Quillayute", "WA", 4795, -12455, 56),
    ("72797", "SEW", "Seattle", "WA", 4745, -12231, 122),
    ("72681", "TWF", "Twin Falls", "ID", 4248, -11448, 1264),
    ("72747", "INL", "International Falls", "MN", 4857, -9340, 361),
    ("72768", "GEG", "Spokane Airport", "WA", 4762, -11753, 721),
    ("72445", "SPI", "Springfield", "IL", 3984, -8968, 178),
    ("72528", "BUF", "Buffalo", "NY", 4293, -7873, 218),
    ("70261", "ANC", "Anchorage", "AK", 6117, -15002, 40),
    ("70273", "FAI", "Fairbanks", "AK", 6482, -14787, 138),
    ("70316", "JNU", "Juneau", "AK", 5837, -13458, 7),
    ("70350", "YAK", "Yakutat", "AK", 5952, -13967, 9),
    ("70219", "BET", "Bethel", "AK", 6078, -16180, 40),
    ("70200", "ADQ", "Kodiak", "AK", 5775, -15250, 34),
    ("70133", "OTZ", "Kotzebue", "AK", 6687, -16263, 5),
];

/// The station a table row describes.
pub open spec fn station_of(t: (&'static str, &'static str, &'static str, &'static str, i32, i32, i32)) -> RaobStation {
    RaobStation {
        wmo: t.0,
        icao: t.1,
        name: t.2,
        state: t.3,
        lat_centi: t.4,
        lon_centi: t.5,
        elevation_m: t.6,
    }
}

/// The station a table row describes.
pub fn station_at(i: usize) -> (r: RaobStation)
    requires
        i < 92,
    ensures
        r == station_of(RAOB_STATIONS@[i as int]),
{
    let t = RAOB_STATIONS[i];
    RaobStation {
        wmo: t.0,
        icao: t.1,
        name: t.2,
        state: t.3,
        lat_centi: t.4,
        lon_centi: t.5,
        elevation_m: t.6,
    }
}

/// The first row of `table` whose WMO number or ICAO identifier is `id`.
pub open spec fn raob_entry(table: Seq<(&'static str, &'static str, &'static str, &'static str, i32, i32, i32)>, id: Seq<char>) -> Option<RaobStation>
    decreases table.len(),
{
    if table.len() == 0 {
        None
    } else if table[0].0@ == id || table[0].1@ == id {
        Some(station_of(table[0]))
    } else {
        raob_entry(table.drop_first(), id)
    }
}

/// The station whose WMO number or ICAO identifier is exactly `id_upper`.
pub fn find_raob_station_upper(id_upper: &str) -> (r: Option<RaobStation>)
    ensures
        r == raob_entry(RAOB_STATIONS@, id_upper@),
{
    let mut i: usize = 0;
    assert(RAOB_STATIONS@.skip(0) == RAOB_STATIONS@);
    while i < 92
        invariant
            i <= 92,
            raob_entry(RAOB_STATIONS@, id_upper@) == raob_entry(RAOB_STATIONS@.skip(i as int), id_upper@),
        decreases 92 - i,
    {
        assert(RAOB_STATIONS@.skip(i as int)[0] == RAOB_STATIONS@[i as int]);
        assert(RAOB_STATIONS@.skip(i as int).drop_first() == RAOB_STATIONS@.skip(i + 1));
        if str_eq(RAOB_STATIONS[i].0, id_upper) || str_eq(RAOB_STATIONS[i].1, id_upper) {
            return Some(station_at(i));
        }
        i += 1;
    }
    None
}

/// Find a RAOB station by WMO number or ICAO identifier (case-insensitive).
pub fn find_raob_station(id: &str) -> (r: Option<RaobStation>)
    ensures
        r == raob_entry(RAOB_STATIONS@, unicode_upper(id@)),
        all_ascii(id@) ==> r == raob_entry(RAOB_STATIONS@, ascii_upper_str(id@)),
{
    let up = to_upper(id);
    find_raob_station_upper(up.as_str())
}

/// Return all RAOB stations, in table order.
pub fn all_raob_stations() -> (r: Vec<RaobStation>)
    ensures
        r@.len() == 92,
        forall|i: int| 0 <= i < 92 ==> r@[i] == station_of(#[trigger] RAOB_STATIONS@[i]),
{
    let mut out: Vec<RaobStation> = Vec::new();
    let mut i: usize = 0;
    while i < 92
        invariant
            i <= 92,
            out@.len() == i,
            forall|k: int| 0 <= k < i ==> out@[k] == station_of(#[trigger] RAOB_STATIONS@[k]),
        decreases 92 - i,
    {
        out.push(station_at(i));
        i += 1;
    }
    out
}

} // verus!
