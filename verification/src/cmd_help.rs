//! The command catalog that the command-line tool prints for discovery.
use vstd::prelude::*;
use crate::text::opt_chars;

verus! {

/// One argument of a command.
#[derive(Debug)]
pub struct ArgDef {
    pub name: &'static str,
    pub arg_type: &'static str,
    pub required: bool,
    pub default: Option<&'static str>,
    pub description: &'static str,
}

/// One command: its name, what it does, its arguments and an example.
#[derive(Debug)]
pub struct CommandDef {
    pub name: &'static str,
    pub description: &'static str,
    pub args: Vec<ArgDef>,
    pub example: &'static str,
}

/// The whole help document.
#[derive(Debug)]
pub struct HelpResponse {
    pub name: &'static str,
    pub version: &'static str,
    pub description: &'static str,
    pub output_format: &'static str,
    pub commands: Vec<CommandDef>,
}

/// The text of an argument: name, type, whether it is required, default,
/// description.
pub open spec fn arg_text(a: ArgDef) -> (Seq<char>, Seq<char>, bool, Option<Seq<char>>, Seq<char>) {
    (a.name@, a.arg_type@, a.required, opt_chars(a.default), a.description@)
}

/// The text of a command: name, description, arguments, example.
pub open spec fn command_text(c: CommandDef) -> (
    Seq<char>,
    Seq<char>,
    Seq<(Seq<char>, Seq<char>, bool, Option<Seq<char>>, Seq<char>)>,
    Seq<char>,
) {
    (c.name@, c.description@, c.args@.map_values(|a: ArgDef| arg_text(a)), c.example@)
}

/// The documented commands, in the order they are listed.
pub open spec fn help_commands() -> Seq<
    (
        Seq<char>,
        Seq<char>,
        Seq<(Seq<char>, Seq<char>, bool, Option<Seq<char>>, Seq<char>)>,
        Seq<char>,
    ),
> {
    seq![
        (
            "models"@,
            "List available NWP models with resolution, domain, and timing info"@,
            Seq::empty(),
            "wx-pro models"@,
        ),
        (
            "point"@,
            "Get model data at a geographic point for a specific variable and level"@,
            seq![
                ("--lat"@, "float"@, true, None, "Latitude in degrees"@),
                ("--lon"@, "float"@, true, None, "Longitude in degrees"@),
                ("--model"@, "string"@, true, None, "Model ID (hrrr, gfs, nam, rap)"@),
                ("--var"@, "string"@, true, None, "Variable name (temperature, dewpoint, wind, cape, cin, rh, pressure, reflectivity, visibility, precipitation)"@),
                ("--level"@, "string"@, false, Some("surface"@), "Level (surface, 500mb, 850mb, etc.)"@),
            ],
            "wx-pro point --lat 35.2 --lon -97.4 --model hrrr --var temperature --level surface"@,
        ),
        (
            "sounding"@,
            "Get a model sounding (vertical profile) at a point with thermodynamic indices"@,
            seq![
                ("--lat"@, "float"@, true, None, "Latitude in degrees"@),
                ("--lon"@, "float"@, true, None, "Longitude in degrees"@),
                ("--model"@, "string"@, false, Some("hrrr"@), "Model ID"@),
            ],
            "wx-pro sounding --lat 35.2 --lon -97.4 --model hrrr"@,
        ),
        (
            "severe"@,
            "Severe weather assessment — SPC outlook, watches, MDs, alerts"@,
            seq![
                ("--state"@, "string"@, false, None, "US state abbreviation (e.g. OK, TX, KS)"@),
                ("--lat"@, "float"@, false, None, "Center latitude (use with --lon)"@),
                ("--lon"@, "float"@, false, None, "Center longitude (use with --lat)"@),
                ("--radius"@, "float"@, false, Some("100"@), "Radius in km"@),
            ],
            "wx-pro severe --state OK"@,
        ),
        (
            "download"@,
            "Download model data from AWS/NOMADS"@,
            seq![
                ("--model"@, "string"@, true, None, "Model ID (hrrr, gfs, nam, rap)"@),
                ("--run"@, "string"@, false, Some("latest"@), "Run time (latest, 00, 06, 12, 18)"@),
                ("--fhour"@, "string"@, false, Some("0"@), "Forecast hour"@),
                ("--output"@, "string"@, false, Some("./data"@), "Output directory"@),
            ],
            "wx-pro download --model hrrr --run latest --fhour 0 --output ./data/"@,
        ),
        (
            "decode"@,
            "Decode a local GRIB2 file — list messages or extract point values"@,
            seq![
                ("--file"@, "string"@, true, None, "Path to GRIB2 file"@),
                ("--list"@, "flag"@, false, None, "List all messages in the file"@),
                ("--message"@, "int"@, false, None, "Message index to inspect or extract from"@),
                ("--point"@, "string"@, false, None, "Grid point as I,J (use with --message)"@),
            ],
            "wx-pro decode --file data/hrrr.grib2 --list"@,
        ),
        (
            "metar"@,
            "Fetch current METAR observation(s) for an ICAO station"@,
            seq![
                ("--station"@, "string"@, true, None, "ICAO station code (e.g., KOKC, KJFK)"@),
                ("--hours"@, "int"@, false, Some("1"@), "Number of hours to look back"@),
            ],
            "wx-pro metar --station KOKC"@,
        ),
        (
            "alerts"@,
            "Fetch active NWS weather alerts by state or lat/lon"@,
            seq![
                ("--state"@, "string"@, false, None, "State code (e.g., OK, TX)"@),
                ("--lat"@, "float"@, false, None, "Latitude"@),
                ("--lon"@, "float"@, false, None, "Longitude"@),
                ("--all"@, "flag"@, false, None, "Fetch all national alerts"@),
            ],
            "wx-pro alerts --state OK"@,
        ),
        (
            "station"@,
            "Look up weather station info by ICAO or find nearby stations"@,
            seq![
                ("--id"@, "string"@, false, None, "ICAO station code"@),
                ("--lat"@, "float"@, false, None, "Latitude for nearby search"@),
                ("--lon"@, "float"@, false, None, "Longitude for nearby search"@),
                ("--radius"@, "float"@, false, Some("100"@), "Search radius in km"@),
            ],
            "wx-pro station --id KOKC"@,
        ),
        (
            "raob"@,
            "Fetch real radiosonde sounding from University of Wyoming with derived indices"@,
            seq![
                ("--station"@, "string"@, false, None, "Station ID (WMO number or ICAO, e.g., OUN, 72357)"@),
                ("--lat"@, "float"@, false, None, "Latitude (finds nearest RAOB site)"@),
                ("--lon"@, "float"@, false, None, "Longitude (finds nearest RAOB site)"@),
                ("--hour"@, "string"@, false, Some("12"@), "Sounding time: 00 or 12 (Z)"@),
            ],
            "wx-pro raob --station OUN --hour 12"@,
        ),
        (
            "forecast"@,
            "Get NWS 7-day or hourly forecast for a US location"@,
            seq![
                ("--lat"@, "float"@, true, None, "Latitude"@),
                ("--lon"@, "float"@, true, None, "Longitude"@),
                ("--hourly"@, "flag"@, false, None, "Fetch hourly forecast instead of 7-day"@),
            ],
            "wx-pro forecast --lat 35.2 --lon -97.4"@,
        ),
        (
            "conditions"@,
            "Unified current conditions — METAR observation + active alerts + nearest station in one call"@,
            seq![
                ("--lat"@, "float"@, true, None, "Latitude"@),
                ("--lon"@, "float"@, true, None, "Longitude"@),
            ],
            "wx-pro conditions --lat 35.2 --lon -97.4"@,
        ),
        (
            "history"@,
            "Observation history with min/max/trends — last N hours of METARs for a station"@,
            seq![
                ("--station"@, "string"@, true, None, "ICAO station code"@),
                ("--hours"@, "int"@, false, Some("24"@), "Number of hours to look back"@),
            ],
            "wx-pro history --station KOKC --hours 24"@,
        ),
        (
            "hazards"@,
            "Unified natural hazard assessment — categorizes active threats (fire, wind, winter, flood, tornado, etc.)"@,
            seq![
                ("--lat"@, "float"@, true, None, "Latitude"@),
                ("--lon"@, "float"@, true, None, "Longitude"@),
            ],
            "wx-pro hazards --lat 35.2 --lon -97.4"@,
        ),
        (
            "radar"@,
            "Download + parse latest NEXRAD Level 2 radar volume scan — reflectivity, velocity summary"@,
            seq![
                ("--site"@, "string"@, false, None, "NEXRAD site ID (e.g., KTLX, KFWS)"@),
                ("--lat"@, "float"@, false, None, "Latitude (finds nearest radar)"@),
                ("--lon"@, "float"@, false, None, "Longitude (finds nearest radar)"@),
            ],
            "wx-pro radar --site KTLX"@,
        ),
        (
            "mrms"@,
            "Download MRMS composite radar mosaic products (1km CONUS) — reflectivity, precip rate, QPE"@,
            seq![
                ("--product"@, "string"@, false, Some("composite_refl"@), "MRMS product (composite_refl, precip_rate, precip_flag, qpe_01h)"@),
                ("--datetime"@, "string"@, false, None, "Datetime YYYYMMDD-HHmmss (default: latest)"@),
                ("--lat"@, "float"@, false, None, "Latitude for point extraction"@),
                ("--lon"@, "float"@, false, None, "Longitude for point extraction"@),
            ],
            "wx-pro mrms --product composite_refl --lat 35.2 --lon -97.4"@,
        ),
        (
            "rotation"@,
            "Run rotation detection algorithm on latest Level 2 radar volume — mesocyclone + TVS detection"@,
            seq![
                ("--site"@, "string"@, false, None, "NEXRAD site ID (e.g., KTLX)"@),
                ("--lat"@, "float"@, false, None, "Latitude (finds nearest radar)"@),
                ("--lon"@, "float"@, false, None, "Longitude (finds nearest radar)"@),
            ],
            "wx-pro rotation --site KTLX"@,
        ),
        (
            "briefing"@,
            "Combined severe weather briefing — SPC outlook + alerts + radar + METAR in one call. The AI meteorologist command."@,
            seq![
                ("--lat"@, "float"@, true, None, "Latitude"@),
                ("--lon"@, "float"@, true, None, "Longitude"@),
            ],
            "wx-pro briefing --lat 35.2 --lon -97.4"@,
        ),
        (
            "watch-box"@,
            "Monitor a geographic point for threshold exceedances — single-shot check of MRMS + alerts"@,
            seq![
                ("--lat"@, "float"@, true, None, "Center latitude"@),
                ("--lon"@, "float"@, true, None, "Center longitude"@),
                ("--radius-km"@, "float"@, false, Some("50"@), "Monitoring radius in km"@),
                ("--interval-sec"@, "int"@, false, Some("300"@), "Check interval in seconds (future continuous mode)"@),
                ("--threshold-dbz"@, "float"@, false, Some("40"@), "Reflectivity threshold in dBZ"@),
            ],
            "wx-pro watch-box --lat 35.2 --lon -97.4 --threshold-dbz 40"@,
        ),
        (
            "radar-image"@,
            "Render NEXRAD radar PPI to PNG image"@,
            seq![
                ("--site"@, "string"@, false, None, "NEXRAD site ID (e.g., KTLX)"@),
                ("--lat"@, "float"@, false, None, "Latitude (finds nearest radar site)"@),
                ("--lon"@, "float"@, false, None, "Longitude (finds nearest radar site)"@),
                ("--product"@, "string"@, false, Some("ref"@), "Radar product: ref, vel, sw, zdr, rho, phi"@),
                ("--size"@, "int"@, false, Some("800"@), "Image size in pixels"@),
                ("--raw"@, "flag"@, false, None, "Raw data layer only — no basemap, no overlays (for map tile compositing)"@),
            ],
            "wx-pro radar-image --site KTLX --product ref --size 800"@,
        ),
        (
            "model-image"@,
            "Render a model field (HRRR/GFS/etc) as a PNG image"@,
            seq![
                ("--model"@, "string"@, false, Some("hrrr"@), "Model name (hrrr, rap, gfs, nam)"@),
                ("--var"@, "string"@, true, None, "Variable (cape, refc, temp, dewpoint, rh, helicity, uh, gust, wind_u, precip, etc.)"@),
                ("--level"@, "string"@, false, Some("surface"@), "Level (surface, 2m, 10m, 500mb, 0-3km, etc.)"@),
                ("--fhour"@, "int"@, false, Some("0"@), "Forecast hour"@),
                ("--raw"@, "flag"@, false, None, "Raw data layer only — no basemap, no overlays (for map tile compositing)"@),
            ],
            "wx-pro model-image --model hrrr --var cape --level surface --fhour 0"@,
        ),
        (
            "timeseries"@,
            "Time series of a model variable at a point (forecast evolution + event detection)"@,
            seq![
                ("--lat"@, "float"@, true, None, "Latitude in degrees"@),
                ("--lon"@, "float"@, true, None, "Longitude in degrees"@),
                ("--var"@, "string"@, true, None, "Variable (cape, refc, temp, gust, rh, etc.)"@),
                ("--level"@, "string"@, false, Some("surface"@), "Level (surface, 2m, 10m, 500mb, etc.)"@),
                ("--model"@, "string"@, false, Some("hrrr"@), "Model (hrrr, rap, gfs, nam)"@),
                ("--hours"@, "int"@, false, Some("18"@), "Number of forecast hours"@),
            ],
            "wx-pro timeseries --lat 35.2 --lon -97.4 --var temp --level 2m --hours 18"@,
        ),
        (
            "evidence"@,
            "Multi-source weather evidence and confidence assessment"@,
            seq![
                ("--lat"@, "float"@, true, None, "Latitude in degrees"@),
                ("--lon"@, "float"@, true, None, "Longitude in degrees"@),
            ],
            "wx-pro evidence --lat 35.2 --lon -97.4"@,
        ),
        (
            "scan"@,
            "Scan a model grid for extreme values (top N max/min, threshold exceedances)"@,
            seq![
                ("--source"@, "string"@, false, Some("hrrr"@), "Data source: hrrr, rap, gfs, nam"@),
                ("--var"@, "string"@, true, None, "Variable (cape, refc, gust, vis, temp, rh, helicity, uh, etc.)"@),
                ("--level"@, "string"@, false, Some("surface"@), "Level (surface, 2m, 10m, 500mb, etc.)"@),
                ("--fhour"@, "int"@, false, Some("0"@), "Forecast hour"@),
                ("--mode"@, "string"@, false, Some("max"@), "Scan mode: max, min, threshold"@),
                ("--top-n"@, "int"@, false, Some("10"@), "Number of results to return"@),
                ("--threshold"@, "float"@, false, None, "Threshold value (required for threshold mode)"@),
                ("--separation-km"@, "float"@, false, Some("30"@), "Minimum separation between results in km"@),
                ("--lat1"@, "float"@, false, None, "Bounding box: south latitude"@),
                ("--lon1"@, "float"@, false, None, "Bounding box: west longitude"@),
                ("--lat2"@, "float"@, false, None, "Bounding box: north latitude"@),
                ("--lon2"@, "float"@, false, None, "Bounding box: east longitude"@),
            ],
            "wx-pro scan --source hrrr --var cape --mode max --top-n 10"@,
        ),
        (
            "tiles"@,
            "Generate XYZ map tiles (256x256 transparent PNGs) from model data for web maps"@,
            seq![
                ("--model"@, "string"@, false, Some("hrrr"@), "Model name (hrrr, rap, gfs, nam)"@),
                ("--var"@, "string"@, true, None, "Variable (cape, refc, temp, dewpoint, rh, helicity, uh, gust, wind_u, precip, etc.)"@),
                ("--level"@, "string"@, false, Some("surface"@), "Level (surface, 2m, 10m, 500mb, 0-3km, etc.)"@),
                ("--fhour"@, "int"@, false, Some("0"@), "Forecast hour"@),
                ("--z"@, "int"@, true, None, "Zoom level (0-18)"@),
                ("--x"@, "int"@, false, None, "Tile X coordinate (omit with y for tile set mode)"@),
                ("--y"@, "int"@, false, None, "Tile Y coordinate (omit with x for tile set mode)"@),
            ],
            "wx-pro tiles --model hrrr --var cape --z 5 --x 7 --y 12"@,
        ),
        (
            "storm-analysis"@,
            "Multi-frame storm cell tracking — SCIT-style identification, mesocyclone association, motion vectors, trend analysis"@,
            seq![
                ("--site"@, "string"@, false, None, "NEXRAD site ID (e.g., KTLX)"@),
                ("--lat"@, "float"@, false, None, "Latitude (finds nearest radar)"@),
                ("--lon"@, "float"@, false, None, "Longitude (finds nearest radar)"@),
                ("--frames"@, "int"@, false, Some("3"@), "Number of radar volume scans to track (1-10)"@),
            ],
            "wx-pro storm-analysis --site KTLX --frames 3"@,
        ),
        (
            "storm-image"@,
            "Render labeled storm cell PNG — reflectivity PPI with cell IDs, mesocyclone markers, info box, and legend"@,
            seq![
                ("--site"@, "string"@, false, None, "NEXRAD site ID (e.g., KTLX)"@),
                ("--lat"@, "float"@, false, None, "Latitude (finds nearest radar)"@),
                ("--lon"@, "float"@, false, None, "Longitude (finds nearest radar)"@),
                ("--size"@, "int"@, false, Some("800"@), "Image size in pixels"@),
            ],
            "wx-pro storm-image --site KTLX --size 800"@,
        ),
        (
            "commands"@,
            "Show this help — describes all commands, arguments, and output format for agent discovery"@,
            Seq::empty(),
            "wx-pro commands"@,
        ),
    ]
}

/// The description of the tool at the head of the help document.
pub open spec fn tool_description() -> Seq<char> {
    "Super advanced AI meteorologist agent — full power, no bandwidth limits, maximum data. All output is valid JSON to stdout. Errors go to stderr as {\"error\": \"...\"}."@
}

/// The help document: the tool's name, the given version, its description,
/// its output format and every command with its arguments.
pub fn run(version: &'static str) -> (r: HelpResponse)
    ensures
        r.name@ == "wx-pro"@,
        r.version == version,
        r.description@ == tool_description(),
        r.output_format@ == "JSON"@,
        r.commands@.len() == help_commands().len(),
        forall|i: int|
            0 <= i < r.commands@.len() ==> command_text(#[trigger] r.commands@[i]) =~~= help_commands()[i],
{
    let commands = vec![
        CommandDef {
            name: "models",
            description: "List available NWP models with resolution, domain, and timing info",
            args: vec![
            ],
            example: "wx-pro models",
        },
        CommandDef {
            name: "point",
            description: "Get model data at a geographic point for a specific variable and level",
            args: vec![
                ArgDef {
                    name: "--lat",
                    arg_type: "float",
                    required: true,
                    default: None,
                    description: "Latitude in degrees",
                },
                ArgDef {
                    name: "--lon",
                    arg_type: "float",
                    required: true,
                    default: None,
                    description: "Longitude in degrees",
                },
                ArgDef {
                    name: "--model",
                    arg_type: "string",
                    required: true,
                    default: None,
                    description: "Model ID (hrrr, gfs, nam, rap)",
                },
                ArgDef {
                    name: "--var",
                    arg_type: "string",
                    required: true,
                    default: None,
                    description: "Variable name (temperature, dewpoint, wind, cape, cin, rh, pressure, reflectivity, visibility, precipitation)",
                },
                ArgDef {
                    name: "--level",
                    arg_type: "string",
                    required: false,
                    default: Some("surface"),
                    description: "Level (surface, 500mb, 850mb, etc.)",
                },
            ],
            example: "wx-pro point --lat 35.2 --lon -97.4 --model hrrr --var temperature --level surface",
        },
        CommandDef {
            name: "sounding",
            description: "Get a model sounding (vertical profile) at a point with thermodynamic indices",
            args: vec![
                ArgDef {
                    name: "--lat",
                    arg_type: "float",
                    required: true,
                    default: None,
                    description: "Latitude in degrees",
                },
                ArgDef {
                    name: "--lon",
                    arg_type: "float",
                    required: true,
                    default: None,
                    description: "Longitude in degrees",
                },
                ArgDef {
                    name: "--model",
                    arg_type: "string",
                    required: false,
                    default: Some("hrrr"),
                    description: "Model ID",
                },
            ],
            example: "wx-pro sounding --lat 35.2 --lon -97.4 --model hrrr",
        },
        CommandDef {
            name: "severe",
            description: "Severe weather assessment — SPC outlook, watches, MDs, alerts",
            args: vec![
                ArgDef {
                    name: "--state",
                    arg_type: "string",
                    required: false,
                    default: None,
                    description: "US state abbreviation (e.g. OK, TX, KS)",
                },
                ArgDef {
                    name: "--lat",
                    arg_type: "float",
                    required: false,
                    default: None,
                    description: "Center latitude (use with --lon)",
                },
                ArgDef {
                    name: "--lon",
                    arg_type: "float",
                    required: false,
                    default: None,
                    description: "Center longitude (use with --lat)",
                },
                ArgDef {
                    name: "--radius",
                    arg_type: "float",
                    required: false,
                    default: Some("100"),
                    description: "Radius in km",
                },
            ],
            example: "wx-pro severe --state OK",
        },
        CommandDef {
            name: "download",
            description: "Download model data from AWS/NOMADS",
            args: vec![
                ArgDef {
                    name: "--model",
                    arg_type: "string",
                    required: true,
                    default: None,
                    description: "Model ID (hrrr, gfs, nam, rap)",
                },
                ArgDef {
                    name: "--run",
                    arg_type: "string",
                    required: false,
                    default: Some("latest"),
                    description: "Run time (latest, 00, 06, 12, 18)",
                },
                ArgDef {
                    name: "--fhour",
                    arg_type: "string",
                    required: false,
                    default: Some("0"),
                    description: "Forecast hour",
                },
                ArgDef {
                    name: "--output",
                    arg_type: "string",
                    required: false,
                    default: Some("./data"),
                    description: "Output directory",
                },
            ],
            example: "wx-pro download --model hrrr --run latest --fhour 0 --output ./data/",
        },
        CommandDef {
            name: "decode",
            description: "Decode a local GRIB2 file — list messages or extract point values",
            args: vec![
                ArgDef {
                    name: "--file",
                    arg_type: "string",
                    required: true,
                    default: None,
                    description: "Path to GRIB2 file",
                },
                ArgDef {
                    name: "--list",
                    arg_type: "flag",
                    required: false,
                    default: None,
                    description: "List all messages in the file",
                },
                ArgDef {
                    name: "--message",
                    arg_type: "int",
                    required: false,
                    default: None,
                    description: "Message index to inspect or extract from",
                },
                ArgDef {
                    name: "--point",
                    arg_type: "string",
                    required: false,
                    default: None,
                    description: "Grid point as I,J (use with --message)",
                },
            ],
            example: "wx-pro decode --file data/hrrr.grib2 --list",
        },
        CommandDef {
            name: "metar",
            description: "Fetch current METAR observation(s) for an ICAO station",
            args: vec![
                ArgDef {
                    name: "--station",
                    arg_type: "string",
                    required: true,
                    default: None,
                    description: "ICAO station code (e.g., KOKC, KJFK)",
                },
                ArgDef {
                    name: "--hours",
                    arg_type: "int",
                    required: false,
                    default: Some("1"),
                    description: "Number of hours to look back",
                },
            ],
            example: "wx-pro metar --station KOKC",
        },
        CommandDef {
            name: "alerts",
            description: "Fetch active NWS weather alerts by state or lat/lon",
            args: vec![
                ArgDef {
                    name: "--state",
                    arg_type: "string",
                    required: false,
                    default: None,
                    description: "State code (e.g., OK, TX)",
                },
                ArgDef {
                    name: "--lat",
                    arg_type: "float",
                    required: false,
                    default: None,
                    description: "Latitude",
                },
                ArgDef {
                    name: "--lon",
                    arg_type: "float",
                    required: false,
                    default: None,
                    description: "Longitude",
                },
                ArgDef {
                    name: "--all",
                    arg_type: "flag",
                    required: false,
                    default: None,
                    description: "Fetch all national alerts",
                },
            ],
            example: "wx-pro alerts --state OK",
        },
        CommandDef {
            name: "station",
            description: "Look up weather station info by ICAO or find nearby stations",
            args: vec![
                ArgDef {
                    name: "--id",
                    arg_type: "string",
                    required: false,
                    default: None,
                    description: "ICAO station code",
                },
                ArgDef {
                    name: "--lat",
                    arg_type: "float",
                    required: false,
                    default: None,
                    description: "Latitude for nearby search",
                },
                ArgDef {
                    name: "--lon",
                    arg_type: "float",
                    required: false,
                    default: None,
                    description: "Longitude for nearby search",
                },
                ArgDef {
                    name: "--radius",
                    arg_type: "float",
                    required: false,
                    default: Some("100"),
                    description: "Search radius in km",
                },
            ],
            example: "wx-pro station --id KOKC",
        },
        CommandDef {
            name: "raob",
            description: "Fetch real radiosonde sounding from University of Wyoming with derived indices",
            args: vec![
                ArgDef {
                    name: "--station",
                    arg_type: "string",
                    required: false,
                    default: None,
                    description: "Station ID (WMO number or ICAO, e.g., OUN, 72357)",
                },
                ArgDef {
                    name: "--lat",
                    arg_type: "float",
                    required: false,
                    default: None,
                    description: "Latitude (finds nearest RAOB site)",
                },
                ArgDef {
                    name: "--lon",
                    arg_type: "float",
                    required: false,
                    default: None,
                    description: "Longitude (finds nearest RAOB site)",
                },
                ArgDef {
                    name: "--hour",
                    arg_type: "string",
                    required: false,
                    default: Some("12"),
                    description: "Sounding time: 00 or 12 (Z)",
                },
            ],
            example: "wx-pro raob --station OUN --hour 12",
        },
        CommandDef {
            name: "forecast",
            description: "Get NWS 7-day or hourly forecast for a US location",
            args: vec![
                ArgDef {
                    name: "--lat",
                    arg_type: "float",
                    required: true,
                    default: None,
                    description: "Latitude",
                },
                ArgDef {
                    name: "--lon",
                    arg_type: "float",
                    required: true,
                    default: None,
                    description: "Longitude",
                },
                ArgDef {
                    name: "--hourly",
                    arg_type: "flag",
                    required: false,
                    default: None,
                    description: "Fetch hourly forecast instead of 7-day",
                },
            ],
            example: "wx-pro forecast --lat 35.2 --lon -97.4",
        },
        CommandDef {
            name: "conditions",
            description: "Unified current conditions — METAR observation + active alerts + nearest station in one call",
            args: vec![
                ArgDef {
                    name: "--lat",
                    arg_type: "float",
                    required: true,
                    default: None,
                    description: "Latitude",
                },
                ArgDef {
                    name: "--lon",
                    arg_type: "float",
                    required: true,
                    default: None,
                    description: "Longitude",
                },
            ],
            example: "wx-pro conditions --lat 35.2 --lon -97.4",
        },
        CommandDef {
            name: "history",
            description: "Observation history with min/max/trends — last N hours of METARs for a station",
            args: vec![
                ArgDef {
                    name: "--station",
                    arg_type: "string",
                    required: true,
                    default: None,
                    description: "ICAO station code",
                },
                ArgDef {
                    name: "--hours",
                    arg_type: "int",
                    required: false,
                    default: Some("24"),
                    description: "Number of hours to look back",
                },
            ],
            example: "wx-pro history --station KOKC --hours 24",
        },
        CommandDef {
            name: "hazards",
            description: "Unified natural hazard assessment — categorizes active threats (fire, wind, winter, flood, tornado, etc.)",
            args: vec![
                ArgDef {
                    name: "--lat",
                    arg_type: "float",
                    required: true,
                    default: None,
                    description: "Latitude",
                },
                ArgDef {
                    name: "--lon",
                    arg_type: "float",
                    required: true,
                    default: None,
                    description: "Longitude",
                },
            ],
            example: "wx-pro hazards --lat 35.2 --lon -97.4",
        },
        CommandDef {
            name: "radar",
            description: "Download + parse latest NEXRAD Level 2 radar volume scan — reflectivity, velocity summary",
            args: vec![
                ArgDef {
                    name: "--site",
                    arg_type: "string",
                    required: false,
                    default: None,
                    description: "NEXRAD site ID (e.g., KTLX, KFWS)",
                },
                ArgDef {
                    name: "--lat",
                    arg_type: "float",
                    required: false,
                    default: None,
                    description: "Latitude (finds nearest radar)",
                },
                ArgDef {
                    name: "--lon",
                    arg_type: "float",
                    required: false,
                    default: None,
                    description: "Longitude (finds nearest radar)",
                },
            ],
            example: "wx-pro radar --site KTLX",
        },
        CommandDef {
            name: "mrms",
            description: "Download MRMS composite radar mosaic products (1km CONUS) — reflectivity, precip rate, QPE",
            args: vec![
                ArgDef {
                    name: "--product",
                    arg_type: "string",
                    required: false,
                    default: Some("composite_refl"),
                    description: "MRMS product (composite_refl, precip_rate, precip_flag, qpe_01h)",
                },
                ArgDef {
                    name: "--datetime",
                    arg_type: "string",
                    required: false,
                    default: None,
                    description: "Datetime YYYYMMDD-HHmmss (default: latest)",
                },
                ArgDef {
                    name: "--lat",
                    arg_type: "float",
                    required: false,
                    default: None,
                    description: "Latitude for point extraction",
                },
                ArgDef {
                    name: "--lon",
                    arg_type: "float",
                    required: false,
                    default: None,
                    description: "Longitude for point extraction",
                },
            ],
            example: "wx-pro mrms --product composite_refl --lat 35.2 --lon -97.4",
        },
        CommandDef {
            name: "rotation",
            description: "Run rotation detection algorithm on latest Level 2 radar volume — mesocyclone + TVS detection",
            args: vec![
                ArgDef {
                    name: "--site",
                    arg_type: "string",
                    required: false,
                    default: None,
                    description: "NEXRAD site ID (e.g., KTLX)",
                },
                ArgDef {
                    name: "--lat",
                    arg_type: "float",
                    required: false,
                    default: None,
                    description: "Latitude (finds nearest radar)",
                },
                ArgDef {
                    name: "--lon",
                    arg_type: "float",
                    required: false,
                    default: None,
                    description: "Longitude (finds nearest radar)",
                },
            ],
            example: "wx-pro rotation --site KTLX",
        },
        CommandDef {
            name: "briefing",
            description: "Combined severe weather briefing — SPC outlook + alerts + radar + METAR in one call. The AI meteorologist command.",
            args: vec![
                ArgDef {
                    name: "--lat",
                    arg_type: "float",
                    required: true,
                    default: None,
                    description: "Latitude",
                },
                ArgDef {
                    name: "--lon",
                    arg_type: "float",
                    required: true,
                    default: None,
                    description: "Longitude",
                },
            ],
            example: "wx-pro briefing --lat 35.2 --lon -97.4",
        },
        CommandDef {
            name: "watch-box",
            description: "Monitor a geographic point for threshold exceedances — single-shot check of MRMS + alerts",
            args: vec![
                ArgDef {
                    name: "--lat",
                    arg_type: "float",
                    required: true,
                    default: None,
                    description: "Center latitude",
                },
                ArgDef {
                    name: "--lon",
                    arg_type: "float",
                    required: true,
                    default: None,
                    description: "Center longitude",
                },
                ArgDef {
                    name: "--radius-km",
                    arg_type: "float",
                    required: false,
                    default: Some("50"),
                    description: "Monitoring radius in km",
                },
                ArgDef {
                    name: "--interval-sec",
                    arg_type: "int",
                    required: false,
                    default: Some("300"),
                    description: "Check interval in seconds (future continuous mode)",
                },
                ArgDef {
                    name: "--threshold-dbz",
                    arg_type: "float",
                    required: false,
                    default: Some("40"),
                    description: "Reflectivity threshold in dBZ",
                },
            ],
            example: "wx-pro watch-box --lat 35.2 --lon -97.4 --threshold-dbz 40",
        },
        CommandDef {
            name: "radar-image",
            description: "Render NEXRAD radar PPI to PNG image",
            args: vec![
                ArgDef {
                    name: "--site",
                    arg_type: "string",
                    required: false,
                    default: None,
                    description: "NEXRAD site ID (e.g., KTLX)",
                },
                ArgDef {
                    name: "--lat",
                    arg_type: "float",
                    required: false,
                    default: None,
                    description: "Latitude (finds nearest radar site)",
                },
                ArgDef {
                    name: "--lon",
                    arg_type: "float",
                    required: false,
                    default: None,
                    description: "Longitude (finds nearest radar site)",
                },
                ArgDef {
                    name: "--product",
                    arg_type: "string",
                    required: false,
                    default: Some("ref"),
                    description: "Radar product: ref, vel, sw, zdr, rho, phi",
                },
                ArgDef {
                    name: "--size",
                    arg_type: "int",
                    required: false,
                    default: Some("800"),
                    description: "Image size in pixels",
                },
                ArgDef {
                    name: "--raw",
                    arg_type: "flag",
                    required: false,
                    default: None,
                    description: "Raw data layer only — no basemap, no overlays (for map tile compositing)",
                },
            ],
            example: "wx-pro radar-image --site KTLX --product ref --size 800",
        },
        CommandDef {
            name: "model-image",
            description: "Render a model field (HRRR/GFS/etc) as a PNG image",
            args: vec![
                ArgDef {
                    name: "--model",
                    arg_type: "string",
                    required: false,
                    default: Some("hrrr"),
                    description: "Model name (hrrr, rap, gfs, nam)",
                },
                ArgDef {
                    name: "--var",
                    arg_type: "string",
                    required: true,
                    default: None,
                    description: "Variable (cape, refc, temp, dewpoint, rh, helicity, uh, gust, wind_u, precip, etc.)",
                },
                ArgDef {
                    name: "--level",
                    arg_type: "string",
                    required: false,
                    default: Some("surface"),
                    description: "Level (surface, 2m, 10m, 500mb, 0-3km, etc.)",
                },
                ArgDef {
                    name: "--fhour",
                    arg_type: "int",
                    required: false,
                    default: Some("0"),
                    description: "Forecast hour",
                },
                ArgDef {
                    name: "--raw",
                    arg_type: "flag",
                    required: false,
                    default: None,
                    description: "Raw data layer only — no basemap, no overlays (for map tile compositing)",
                },
            ],
            example: "wx-pro model-image --model hrrr --var cape --level surface --fhour 0",
        },
        CommandDef {
            name: "timeseries",
            description: "Time series of a model variable at a point (forecast evolution + event detection)",
            args: vec![
                ArgDef {
                    name: "--lat",
                    arg_type: "float",
                    required: true,
                    default: None,
                    description: "Latitude in degrees",
                },
                ArgDef {
                    name: "--lon",
                    arg_type: "float",
                    required: true,
                    default: None,
                    description: "Longitude in degrees",
                },
                ArgDef {
                    name: "--var",
                    arg_type: "string",
                    required: true,
                    default: None,
                    description: "Variable (cape, refc, temp, gust, rh, etc.)",
                },
                ArgDef {
                    name: "--level",
                    arg_type: "string",
                    required: false,
                    default: Some("surface"),
                    description: "Level (surface, 2m, 10m, 500mb, etc.)",
                },
                ArgDef {
                    name: "--model",
                    arg_type: "string",
                    required: false,
                    default: Some("hrrr"),
                    description: "Model (hrrr, rap, gfs, nam)",
                },
                ArgDef {
                    name: "--hours",
                    arg_type: "int",
                    required: false,
                    default: Some("18"),
                    description: "Number of forecast hours",
                },
            ],
            example: "wx-pro timeseries --lat 35.2 --lon -97.4 --var temp --level 2m --hours 18",
        },
        CommandDef {
            name: "evidence",
            description: "Multi-source weather evidence and confidence assessment",
            args: vec![
                ArgDef {
                    name: "--lat",
                    arg_type: "float",
                    required: true,
                    default: None,
                    description: "Latitude in degrees",
                },
                ArgDef {
                    name: "--lon",
                    arg_type: "float",
                    required: true,
                    default: None,
                    description: "Longitude in degrees",
                },
            ],
            example: "wx-pro evidence --lat 35.2 --lon -97.4",
        },
        CommandDef {
            name: "scan",
            description: "Scan a model grid for extreme values (top N max/min, threshold exceedances)",
            args: vec![
                ArgDef {
                    name: "--source",
                    arg_type: "string",
                    required: false,
                    default: Some("hrrr"),
                    description: "Data source: hrrr, rap, gfs, nam",
                },
                ArgDef {
                    name: "--var",
                    arg_type: "string",
                    required: true,
                    default: None,
                    description: "Variable (cape, refc, gust, vis, temp, rh, helicity, uh, etc.)",
                },
                ArgDef {
                    name: "--level",
                    arg_type: "string",
                    required: false,
                    default: Some("surface"),
                    description: "Level (surface, 2m, 10m, 500mb, etc.)",
                },
                ArgDef {
                    name: "--fhour",
                    arg_type: "int",
                    required: false,
                    default: Some("0"),
                    description: "Forecast hour",
                },
                ArgDef {
                    name: "--mode",
                    arg_type: "string",
                    required: false,
                    default: Some("max"),
                    description: "Scan mode: max, min, threshold",
                },
                ArgDef {
                    name: "--top-n",
                    arg_type: "int",
                    required: false,
                    default: Some("10"),
                    description: "Number of results to return",
                },
                ArgDef {
                    name: "--threshold",
                    arg_type: "float",
                    required: false,
                    default: None,
                    description: "Threshold value (required for threshold mode)",
                },
                ArgDef {
                    name: "--separation-km",
                    arg_type: "float",
                    required: false,
                    default: Some("30"),
                    description: "Minimum separation between results in km",
                },
                ArgDef {
                    name: "--lat1",
                    arg_type: "float",
                    required: false,
                    default: None,
                    description: "Bounding box: south latitude",
                },
                ArgDef {
                    name: "--lon1",
                    arg_type: "float",
                    required: false,
                    default: None,
                    description: "Bounding box: west longitude",
                },
                ArgDef {
                    name: "--lat2",
                    arg_type: "float",
                    required: false,
                    default: None,
                    description: "Bounding box: north latitude",
                },
                ArgDef {
                    name: "--lon2",
                    arg_type: "float",
                    required: false,
                    default: None,
                    description: "Bounding box: east longitude",
                },
            ],
            example: "wx-pro scan --source hrrr --var cape --mode max --top-n 10",
        },
        CommandDef {
            name: "tiles",
            description: "Generate XYZ map tiles (256x256 transparent PNGs) from model data for web maps",
            args: vec![
                ArgDef {
                    name: "--model",
                    arg_type: "string",
                    required: false,
                    default: Some("hrrr"),
                    description: "Model name (hrrr, rap, gfs, nam)",
                },
                ArgDef {
                    name: "--var",
                    arg_type: "string",
                    required: true,
                    default: None,
                    description: "Variable (cape, refc, temp, dewpoint, rh, helicity, uh, gust, wind_u, precip, etc.)",
                },
                ArgDef {
                    name: "--level",
                    arg_type: "string",
                    required: false,
                    default: Some("surface"),
                    description: "Level (surface, 2m, 10m, 500mb, 0-3km, etc.)",
                },
                ArgDef {
                    name: "--fhour",
                    arg_type: "int",
                    required: false,
                    default: Some("0"),
                    description: "Forecast hour",
                },
                ArgDef {
                    name: "--z",
                    arg_type: "int",
                    required: true,
                    default: None,
                    description: "Zoom level (0-18)",
                },
                ArgDef {
                    name: "--x",
                    arg_type: "int",
                    required: false,
                    default: None,
                    description: "Tile X coordinate (omit with y for tile set mode)",
                },
                ArgDef {
                    name: "--y",
                    arg_type: "int",
                    required: false,
                    default: None,
                    description: "Tile Y coordinate (omit with x for tile set mode)",
                },
            ],
            example: "wx-pro tiles --model hrrr --var cape --z 5 --x 7 --y 12",
        },
        CommandDef {
            name: "storm-analysis",
            description: "Multi-frame storm cell tracking — SCIT-style identification, mesocyclone association, motion vectors, trend analysis",
            args: vec![
                ArgDef {
                    name: "--site",
                    arg_type: "string",
                    required: false,
                    default: None,
                    description: "NEXRAD site ID (e.g., KTLX)",
                },
                ArgDef {
                    name: "--lat",
                    arg_type: "float",
                    required: false,
                    default: None,
                    description: "Latitude (finds nearest radar)",
                },
                ArgDef {
                    name: "--lon",
                    arg_type: "float",
                    required: false,
                    default: None,
                    description: "Longitude (finds nearest radar)",
                },
                ArgDef {
                    name: "--frames",
                    arg_type: "int",
                    required: false,
                    default: Some("3"),
                    description: "Number of radar volume scans to track (1-10)",
                },
            ],
            example: "wx-pro storm-analysis --site KTLX --frames 3",
        },
        CommandDef {
            name: "storm-image",
            description: "Render labeled storm cell PNG — reflectivity PPI with cell IDs, mesocyclone markers, info box, and legend",
            args: vec![
                ArgDef {
                    name: "--site",
                    arg_type: "string",
                    required: false,
                    default: None,
                    description: "NEXRAD site ID (e.g., KTLX)",
                },
                ArgDef {
                    name: "--lat",
                    arg_type: "float",
                    required: false,
                    default: None,
                    description: "Latitude (finds nearest radar)",
                },
                ArgDef {
                    name: "--lon",
                    arg_type: "float",
                    required: false,
                    default: None,
                    description: "Longitude (finds nearest radar)",
                },
                ArgDef {
                    name: "--size",
                    arg_type: "int",
                    required: false,
                    default: Some("800"),
                    description: "Image size in pixels",
                },
            ],
            example: "wx-pro storm-image --site KTLX --size 800",
        },
        CommandDef {
            name: "commands",
            description: "Show this help — describes all commands, arguments, and output format for agent discovery",
            args: vec![
            ],
            example: "wx-pro commands",
        },
    ];
    HelpResponse {
        name: "wx-pro",
        version,
        description: "Super advanced AI meteorologist agent — full power, no bandwidth limits, maximum data. All output is valid JSON to stdout. Errors go to stderr as {\"error\": \"...\"}.",
        output_format: "JSON",
        commands,
    }
}

} // verus!
