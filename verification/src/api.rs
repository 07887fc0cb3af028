//! The HTTP API's requests as command lines of the toolkit: which
//! arguments a request with the given query parameters runs, or why it is
//! refused (the answer is then 400 with that message).
//!
//! A parameter counts as given when it is present and not empty.
use vstd::prelude::*;
use crate::text::{chars_of, decimal, owned, push_decimal, str_eq};

verus! {

/// Whether a query parameter is present and not empty.
pub open spec fn given(p: Option<&str>) -> bool {
    match p {
        Some(s) => s@.len() > 0,
        None => false,
    }
}

/// A query parameter's text, empty when absent.
pub open spec fn text_of(p: Option<&str>) -> Seq<char> {
    match p {
        Some(s) => s@,
        None => Seq::empty(),
    }
}

/// The view of a command line.
pub open spec fn args_view(v: Seq<String>) -> Seq<Seq<char>> {
    v.map_values(|a: String| a@)
}

/// A command line, or the message it is refused with, as views.
pub open spec fn outcome_view(r: Result<Vec<String>, String>) -> Result<Seq<Seq<char>>, Seq<char>> {
    match r {
        Ok(v) => Ok(args_view(v@)),
        Err(e) => Err(e@),
    }
}

/// Whether a query parameter is given (see `given`).
pub fn is_given(p: Option<&str>) -> (r: bool)
    ensures
        r == given(p),
{
    match p {
        Some(s) => chars_of(s).len() > 0,
        None => false,
    }
}

/// A parameter's text, empty when absent.
fn param_text(p: Option<&str>) -> (r: String)
    ensures
        r@ == text_of(p),
{
    match p {
        Some(s) => owned(s),
        None => {
            let r = String::new();
            assert(r@ =~= Seq::<char>::empty());
            r
        },
    }
}

/// A command line of one word.
fn command(w: &str) -> (r: Vec<String>)
    ensures
        args_view(r@) == seq![w@],
{
    let mut out: Vec<String> = Vec::new();
    out.push(owned(w));
    assert(args_view(out@) =~= seq![w@]);
    out
}

/// Appends one word.
fn push_word(args: &mut Vec<String>, w: String)
    ensures
        args_view(final(args)@) == args_view(old(args)@).push(w@),
{
    let ghost before = args_view(args@);
    args.push(w);
    assert(args_view(args@) =~= before.push(w@));
}

/// Appends `flag` and the parameter's text.
fn push_flag(args: &mut Vec<String>, flag: &str, p: Option<&str>)
    ensures
        args_view(final(args)@) == args_view(old(args)@) + seq![flag@, text_of(p)],
{
    let ghost before = args_view(args@);
    args.push(owned(flag));
    args.push(param_text(p));
    assert(args_view(args@) =~= before + seq![flag@, text_of(p)]);
}

/// The command line of a request that needs a point: `name` with the
/// latitude and longitude, or the refusal when either is missing.
pub open spec fn point_command(name: Seq<char>, lat: Option<&str>, lon: Option<&str>) -> Result<
    Seq<Seq<char>>,
    Seq<char>,
> {
    if given(lat) && given(lon) {
        Ok(seq![name, "--lat"@, text_of(lat), "--lon"@, text_of(lon)])
    } else {
        Err("lat and lon required"@)
    }
}

/// The command line of `/api/conditions`, `/api/forecast` or
/// `/api/severe` (see `point_command`).
pub fn point_args(name: &str, lat: Option<&str>, lon: Option<&str>) -> (r: Result<Vec<String>, String>)
    ensures
        outcome_view(r) == point_command(name@, lat, lon),
{
    if is_given(lat) && is_given(lon) {
        let mut args = command(name);
        push_flag(&mut args, "--lat", lat);
        push_flag(&mut args, "--lon", lon);
        assert(args_view(args@) =~= seq![name@, "--lat"@, text_of(lat), "--lon"@, text_of(lon)]);
        Ok(args)
    } else {
        Err(owned("lat and lon required"))
    }
}

/// The command line of `/api/alerts`: by state when given, else by point.
pub open spec fn alerts_command(lat: Option<&str>, lon: Option<&str>, state: Option<&str>) -> Result<
    Seq<Seq<char>>,
    Seq<char>,
> {
    if given(state) {
        Ok(seq!["alerts"@, "--state"@, text_of(state)])
    } else if given(lat) && given(lon) {
        Ok(seq!["alerts"@, "--lat"@, text_of(lat), "--lon"@, text_of(lon)])
    } else {
        Err("lat/lon or state required"@)
    }
}

/// The command line of `/api/alerts` (see `alerts_command`).
pub fn alerts_args(lat: Option<&str>, lon: Option<&str>, state: Option<&str>) -> (r: Result<Vec<String>, String>)
    ensures
        outcome_view(r) == alerts_command(lat, lon, state),
{
    if is_given(state) {
        let mut args = command("alerts");
        push_flag(&mut args, "--state", state);
        assert(args_view(args@) =~= seq!["alerts"@, "--state"@, text_of(state)]);
        Ok(args)
    } else if is_given(lat) && is_given(lon) {
        let mut args = command("alerts");
        push_flag(&mut args, "--lat", lat);
        push_flag(&mut args, "--lon", lon);
        assert(args_view(args@) =~= seq!["alerts"@, "--lat"@, text_of(lat), "--lon"@, text_of(lon)]);
        Ok(args)
    } else {
        Err(owned("lat/lon or state required"))
    }
}

/// The command line of `/api/metar`.
pub open spec fn metar_command(station: Option<&str>) -> Result<Seq<Seq<char>>, Seq<char>> {
    if given(station) {
        Ok(seq!["metar"@, "--station"@, text_of(station)])
    } else {
        Err("station required"@)
    }
}

/// The command line of `/api/metar` (see `metar_command`).
pub fn metar_args(station: Option<&str>) -> (r: Result<Vec<String>, String>)
    ensures
        outcome_view(r) == metar_command(station),
{
    if is_given(station) {
        let mut args = command("metar");
        push_flag(&mut args, "--station", station);
        assert(args_view(args@) =~= seq!["metar"@, "--station"@, text_of(station)]);
        Ok(args)
    } else {
        Err(owned("station required"))
    }
}

/// The command line of `/api/radar`: by site when given, else by point.
pub open spec fn radar_command(site: Option<&str>, lat: Option<&str>, lon: Option<&str>) -> Result<
    Seq<Seq<char>>,
    Seq<char>,
> {
    if given(site) {
        Ok(seq!["radar"@, "--site"@, text_of(site)])
    } else if given(lat) && given(lon) {
        Ok(seq!["radar"@, "--lat"@, text_of(lat), "--lon"@, text_of(lon)])
    } else {
        Err("site or lat/lon required"@)
    }
}

/// The command line of `/api/radar` (see `radar_command`).
pub fn radar_args(site: Option<&str>, lat: Option<&str>, lon: Option<&str>) -> (r: Result<Vec<String>, String>)
    ensures
        outcome_view(r) == radar_command(site, lat, lon),
{
    if is_given(site) {
        let mut args = command("radar");
        push_flag(&mut args, "--site", site);
        assert(args_view(args@) =~= seq!["radar"@, "--site"@, text_of(site)]);
        Ok(args)
    } else if is_given(lat) && is_given(lon) {
        let mut args = command("radar");
        push_flag(&mut args, "--lat", lat);
        push_flag(&mut args, "--lon", lon);
        assert(args_view(args@) =~= seq!["radar"@, "--lat"@, text_of(lat), "--lon"@, text_of(lon)]);
        Ok(args)
    } else {
        Err(owned("site or lat/lon required"))
    }
}

/// `flag` and the parameter's text when it is given, nothing otherwise.
pub open spec fn optional_flag(flag: Seq<char>, p: Option<&str>) -> Seq<Seq<char>> {
    if given(p) {
        seq![flag, text_of(p)]
    } else {
        Seq::empty()
    }
}

/// Appends `flag` and the parameter's text when it is given.
fn push_optional(args: &mut Vec<String>, flag: &str, p: Option<&str>)
    ensures
        args_view(final(args)@) == args_view(old(args)@) + optional_flag(flag@, p),
{
    if is_given(p) {
        push_flag(args, flag, p);
    } else {
        assert(args_view(args@) + Seq::<Seq<char>>::empty() =~= args_view(args@));
    }
}

/// The command line of `/api/scan`: the variable, and the mode when given.
pub open spec fn scan_command(var: Option<&str>, mode: Option<&str>) -> Result<Seq<Seq<char>>, Seq<char>> {
    if given(var) {
        Ok(seq!["scan"@, "--var"@, text_of(var)] + optional_flag("--mode"@, mode))
    } else {
        Err("var required"@)
    }
}

/// The command line of `/api/scan` (see `scan_command`).
pub fn scan_args(var: Option<&str>, mode: Option<&str>) -> (r: Result<Vec<String>, String>)
    ensures
        outcome_view(r) == scan_command(var, mode),
{
    if is_given(var) {
        let mut args = command("scan");
        push_flag(&mut args, "--var", var);
        push_optional(&mut args, "--mode", mode);
        assert(args_view(args@) =~= seq!["scan"@, "--var"@, text_of(var)] + optional_flag("--mode"@, mode));
        Ok(args)
    } else {
        Err(owned("var required"))
    }
}

/// The command line of `/api/point`: the point, then the model and the
/// variable when given.
pub open spec fn point_value_command(
    lat: Option<&str>,
    lon: Option<&str>,
    model: Option<&str>,
    var: Option<&str>,
) -> Result<Seq<Seq<char>>, Seq<char>> {
    if given(lat) && given(lon) {
        Ok(seq!["point"@, "--lat"@, text_of(lat), "--lon"@, text_of(lon)] + optional_flag("--model"@, model)
            + optional_flag("--var"@, var))
    } else {
        Err("lat and lon required"@)
    }
}

/// The command line of `/api/point` (see `point_value_command`).
pub fn point_value_args(
    lat: Option<&str>,
    lon: Option<&str>,
    model: Option<&str>,
    var: Option<&str>,
) -> (r: Result<Vec<String>, String>)
    ensures
        outcome_view(r) == point_value_command(lat, lon, model, var),
{
    if is_given(lat) && is_given(lon) {
        let mut args = command("point");
        push_flag(&mut args, "--lat", lat);
        push_flag(&mut args, "--lon", lon);
        push_optional(&mut args, "--model", model);
        push_optional(&mut args, "--var", var);
        assert(args_view(args@) =~= seq!["point"@, "--lat"@, text_of(lat), "--lon"@, text_of(lon)] + optional_flag("--model"@, model) + optional_flag("--var"@, var));
        Ok(args)
    } else {
        Err(owned("lat and lon required"))
    }
}

/// Whether the `raw` parameter asks for the image bytes: "true" or "1".
pub open spec fn wants_raw(raw: Option<&str>) -> bool {
    match raw {
        Some(s) => s@ == "true"@ || s@ == "1"@,
        None => false,
    }
}

/// Whether the `raw` parameter asks for the image bytes (see `wants_raw`).
pub fn raw_requested(raw: Option<&str>) -> (r: bool)
    ensures
        r == wants_raw(raw),
{
    match raw {
        Some(s) => str_eq(s, "true") || str_eq(s, "1"),
        None => false,
    }
}

/// The command line of `/api/radar-image`.
pub open spec fn radar_image_command(site: Option<&str>) -> Result<Seq<Seq<char>>, Seq<char>> {
    if given(site) {
        Ok(seq!["radar"@, "--site"@, text_of(site), "--image"@])
    } else {
        Err("site required"@)
    }
}

/// The command line of `/api/radar-image` (see `radar_image_command`).
pub fn radar_image_args(site: Option<&str>) -> (r: Result<Vec<String>, String>)
    ensures
        outcome_view(r) == radar_image_command(site),
{
    if is_given(site) {
        let mut args = command("radar");
        push_flag(&mut args, "--site", site);
        push_word(&mut args, owned("--image"));
        assert(args_view(args@) =~= seq!["radar"@, "--site"@, text_of(site), "--image"@]);
        Ok(args)
    } else {
        Err(owned("site required"))
    }
}

/// The command line of `/api/model-image`.
pub open spec fn model_image_command(var: Option<&str>) -> Result<Seq<Seq<char>>, Seq<char>> {
    if given(var) {
        Ok(seq!["model-image"@, "--var"@, text_of(var)])
    } else {
        Err("var required"@)
    }
}

/// The command line of `/api/model-image` (see `model_image_command`).
pub fn model_image_args(var: Option<&str>) -> (r: Result<Vec<String>, String>)
    ensures
        outcome_view(r) == model_image_command(var),
{
    if is_given(var) {
        let mut args = command("model-image");
        push_flag(&mut args, "--var", var);
        assert(args_view(args@) =~= seq!["model-image"@, "--var"@, text_of(var)]);
        Ok(args)
    } else {
        Err(owned("var required"))
    }
}

/// The command line that renders one model tile.
pub open spec fn tile_command(
    model: Seq<char>,
    var: Seq<char>,
    level: Seq<char>,
    fhour: u32,
    z: u32,
    x: u32,
    y: u32,
) -> Seq<Seq<char>> {
    seq![
        "tiles"@,
        "--model"@,
        model,
        "--var"@,
        var,
        "--level"@,
        level,
        "--fhour"@,
        decimal(fhour as nat),
        "--z"@,
        decimal(z as nat),
        "--x"@,
        decimal(x as nat),
        "--y"@,
        decimal(y as nat),
    ]
}

/// The number `n` in decimal.
fn number_text(n: u32) -> (r: String)
    ensures
        r@ == decimal(n as nat),
{
    let mut s = String::new();
    assert(s@ =~= Seq::<char>::empty());
    push_decimal(&mut s, n as u64);
    assert(s@ =~= decimal(n as nat));
    s
}

/// The command line that renders one model tile (see `tile_command`).
pub fn tile_args(model: &str, var: &str, level: &str, fhour: u32, z: u32, x: u32, y: u32) -> (r: Vec<String>)
    ensures
        args_view(r@) == tile_command(model@, var@, level@, fhour, z, x, y),
{
    let mut args = command("tiles");
    push_word(&mut args, owned("--model"));
    push_word(&mut args, owned(model));
    push_word(&mut args, owned("--var"));
    push_word(&mut args, owned(var));
    push_word(&mut args, owned("--level"));
    push_word(&mut args, owned(level));
    push_word(&mut args, owned("--fhour"));
    push_word(&mut args, number_text(fhour));
    push_word(&mut args, owned("--z"));
    push_word(&mut args, number_text(z));
    push_word(&mut args, owned("--x"));
    push_word(&mut args, number_text(x));
    push_word(&mut args, owned("--y"));
    push_word(&mut args, number_text(y));
    assert(args_view(args@) =~= tile_command(model@, var@, level@, fhour, z, x, y));
    args
}

} // verus!
