//! Viewer navigation state: the views, message metadata, the colormap list
//! and the choices made when stepping through messages.
use vstd::prelude::*;
use vstd::view::View as SpecView;
use crate::text::{append, contains_seq, decimal, decimal_len, push_decimal, str_contains, str_eq, to_lower, unicode_lower};

verus! {

/// A view of the viewer.
#[derive(Clone, Copy, PartialEq, Eq, Debug, Structural)]
pub enum View {
    MapView,
    Sounding,
    Hodograph,
    Radar,
    Download,
    Info,
}

impl View {
    /// The view's title.
    pub open spec fn label_of(self) -> Seq<char> {
        match self {
            View::MapView => "Map View"@,
            View::Sounding => "Skew-T"@,
            View::Hodograph => "Hodograph"@,
            View::Radar => "Radar"@,
            View::Download => "Download"@,
            View::Info => "File Info"@,
        }
    }

    /// The view's icon character.
    pub open spec fn icon_of(self) -> Seq<char> {
        match self {
            View::MapView => "\u{1F5FA}"@,
            View::Sounding => "\u{1F321}"@,
            View::Hodograph => "\u{1F300}"@,
            View::Radar => "\u{1F4E1}"@,
            View::Download => "\u{2B07}"@,
            View::Info => "\u{2139}"@,
        }
    }

    /// The view's title.
    pub fn label(&self) -> (r: &'static str)
        ensures
            r@ == self.label_of(),
    {
        match self {
            View::MapView => "Map View",
            View::Sounding => "Skew-T",
            View::Hodograph => "Hodograph",
            View::Radar => "Radar",
            View::Download => "Download",
            View::Info => "File Info",
        }
    }

    /// The view's icon character.
    pub fn icon(&self) -> (r: &'static str)
        ensures
            r@ == self.icon_of(),
    {
        match self {
            View::MapView => "\u{1F5FA}",
            View::Sounding => "\u{1F321}",
            View::Hodograph => "\u{1F300}",
            View::Radar => "\u{1F4E1}",
            View::Download => "\u{2B07}",
            View::Info => "\u{2139}",
        }
    }
}

/// Every view, in the order the navigation shows them.
pub const ALL_VIEWS: [View; 6] = [
    View::MapView,
    View::Sounding,
    View::Hodograph,
    View::Radar,
    View::Download,
    View::Info,
];

/// How a field is drawn.
#[derive(Clone, Copy, PartialEq, Eq, Debug, Structural)]
pub enum RenderMode {
    Raster,
    FilledContour,
}

/// Metadata of one GRIB2 message of an open file.
#[derive(Debug)]
pub struct MessageInfo {
    pub index: usize,
    pub name: String,
    pub units: String,
    pub level: String,
    pub forecast_hr: u32,
    pub nx: u32,
    pub ny: u32,
}

/// News from a radar download.
#[derive(Debug)]
pub enum RadarEvent {
    Status(String),
    Data(Vec<u8>),
    Error(String),
}

/// The colormaps the viewer offers, in menu order.
pub const COLORMAP_NAMES: [&'static str; 19] = [
    "temperature",
    "dewpoint",
    "wind",
    "reflectivity",
    "cape",
    "relative_humidity",
    "vorticity",
    "pressure",
    "precipitation",
    "snow",
    "ice",
    "visibility",
    "cloud_cover",
    "helicity",
    "divergence",
    "theta_e",
    "nws_reflectivity",
    "nws_precip",
    "goes_ir",
];

/// The message to select after `selected` when stepping forward through
/// `count` messages: the next one, the first when none is selected, the
/// last when at the end; `None` when there are no messages.
pub open spec fn next_index(selected: Option<usize>, count: nat) -> Option<nat> {
    if count == 0 {
        None
    } else {
        match selected {
            None => Some(0),
            Some(i) => if i + 1 < count {
                Some((i + 1) as nat)
            } else {
                Some(i as nat)
            },
        }
    }
}

/// The message to select before `selected` when stepping back: the previous
/// one, the first when none is selected or at the start; `None` when there
/// are no messages.
pub open spec fn prev_index(selected: Option<usize>, count: nat) -> Option<nat> {
    if count == 0 {
        None
    } else {
        match selected {
            None => Some(0),
            Some(i) => if i > 0 {
                Some((i - 1) as nat)
            } else {
                Some(0)
            },
        }
    }
}

/// The message to select when stepping forward (see `next_index`).
pub fn select_next_message(selected_msg: Option<usize>, message_count: usize) -> (r: Option<usize>)
    ensures
        match r {
            Some(i) => next_index(selected_msg, message_count as nat) == Some(i as nat),
            None => next_index(selected_msg, message_count as nat) is None,
        },
{
    if message_count == 0 {
        return None;
    }
    match selected_msg {
        Some(i) => if i < message_count - 1 {
            Some(i + 1)
        } else {
            Some(i)
        },
        None => Some(0),
    }
}

/// The message to select when stepping back (see `prev_index`).
pub fn select_prev_message(selected_msg: Option<usize>, message_count: usize) -> (r: Option<usize>)
    ensures
        match r {
            Some(i) => prev_index(selected_msg, message_count as nat) == Some(i as nat),
            None => prev_index(selected_msg, message_count as nat) is None,
        },
{
    if message_count == 0 {
        return None;
    }
    match selected_msg {
        Some(i) => if i > 0 {
            Some(i - 1)
        } else {
            Some(i)
        },
        None => Some(0),
    }
}

/// The colormap at position `colormap_idx`, counting round the list.
pub fn colormap_name(colormap_idx: usize) -> (r: &'static str)
    ensures
        r == COLORMAP_NAMES[colormap_idx as int % 19],
{
    COLORMAP_NAMES[colormap_idx % 19]
}

/// The colormap suited to a message, judged from its lower-case name.
pub open spec fn colormap_for(name: Seq<char>) -> Seq<char> {
    if contains_seq(name, "temperature"@) || contains_seq(name, "tmp"@) {
        "temperature"@
    } else if contains_seq(name, "dew"@) || contains_seq(name, "dpt"@) {
        "dewpoint"@
    } else if contains_seq(name, "wind"@) || contains_seq(name, "gust"@) || contains_seq(
        name,
        "ugrd"@,
    ) || contains_seq(name, "vgrd"@) {
        "wind"@
    } else if contains_seq(name, "refl"@) || contains_seq(name, "dbz"@) {
        "reflectivity"@
    } else if contains_seq(name, "cape"@) {
        "cape"@
    } else if contains_seq(name, "rh"@) || contains_seq(name, "relative"@) {
        "relative_humidity"@
    } else if contains_seq(name, "vort"@) {
        "vorticity"@
    } else if contains_seq(name, "pres"@) || contains_seq(name, "mslp"@) || contains_seq(
        name,
        "hgt"@,
    ) {
        "pressure"@
    } else if contains_seq(name, "precip"@) || contains_seq(name, "apcp"@) || contains_seq(
        name,
        "qpf"@,
    ) {
        "precipitation"@
    } else if contains_seq(name, "snow"@) {
        "snow"@
    } else if contains_seq(name, "ice"@) {
        "ice"@
    } else if contains_seq(name, "vis"@) {
        "visibility"@
    } else if contains_seq(name, "cloud"@) || contains_seq(name, "tcc"@) {
        "cloud_cover"@
    } else if contains_seq(name, "heli"@) || contains_seq(name, "srh"@) {
        "helicity"@
    } else if contains_seq(name, "div"@) {
        "divergence"@
    } else if contains_seq(name, "theta"@) {
        "theta_e"@
    } else {
        "temperature"@
    }
}

/// The colormap suited to a message with lower-case name `name`.
pub fn colormap_for_name(name: &str) -> (r: &'static str)
    ensures
        r@ == colormap_for(name@),
{
    if str_contains(name, "temperature") || str_contains(name, "tmp") {
        "temperature"
    } else if str_contains(name, "dew") || str_contains(name, "dpt") {
        "dewpoint"
    } else if str_contains(name, "wind") || str_contains(name, "gust") || str_contains(name, "ugrd")
        || str_contains(name, "vgrd") {
        "wind"
    } else if str_contains(name, "refl") || str_contains(name, "dbz") {
        "reflectivity"
    } else if str_contains(name, "cape") {
        "cape"
    } else if str_contains(name, "rh") || str_contains(name, "relative") {
        "relative_humidity"
    } else if str_contains(name, "vort") {
        "vorticity"
    } else if str_contains(name, "pres") || str_contains(name, "mslp") || str_contains(name, "hgt") {
        "pressure"
    } else if str_contains(name, "precip") || str_contains(name, "apcp") || str_contains(name, "qpf") {
        "precipitation"
    } else if str_contains(name, "snow") {
        "snow"
    } else if str_contains(name, "ice") {
        "ice"
    } else if str_contains(name, "vis") {
        "visibility"
    } else if str_contains(name, "cloud") || str_contains(name, "tcc") {
        "cloud_cover"
    } else if str_contains(name, "heli") || str_contains(name, "srh") {
        "helicity"
    } else if str_contains(name, "div") {
        "divergence"
    } else if str_contains(name, "theta") {
        "theta_e"
    } else {
        "temperature"
    }
}

/// Position of the first colormap named `name`, if any.
pub fn colormap_position(name: &str) -> (r: Option<usize>)
    ensures
        match r {
            Some(i) => i < 19 && COLORMAP_NAMES[i as int]@ == name@ && forall|j: int|
                0 <= j < i ==> (#[trigger] COLORMAP_NAMES[j])@ != name@,
            None => forall|j: int| 0 <= j < 19 ==> (#[trigger] COLORMAP_NAMES[j])@ != name@,
        },
{
    let mut i: usize = 0;
    while i < 19
        invariant
            i <= 19,
            forall|j: int| 0 <= j < i ==> (#[trigger] COLORMAP_NAMES[j])@ != name@,
        decreases 19 - i,
    {
        if str_eq(COLORMAP_NAMES[i], name) {
            return Some(i);
        }
        i += 1;
    }
    None
}

/// The colormap index after guessing a colormap for the selected message:
/// the position of the colormap suited to its lower-case name; unchanged
/// when no message (or one past the list) is selected.
pub fn auto_colormap(messages: &Vec<MessageInfo>, selected_msg: Option<usize>, colormap_idx: usize) -> (r:
    usize)
    ensures
        match selected_msg {
            Some(i) => if i < messages@.len() {
                COLORMAP_NAMES[r as int]@ == colormap_for(unicode_lower(messages@[i as int].name@))
                    && forall|j: int| 0 <= j < r ==> (#[trigger] COLORMAP_NAMES[j])@ != colormap_for(
                    unicode_lower(messages@[i as int].name@),
                )
            } else {
                r == colormap_idx
            },
            None => r == colormap_idx,
        },
{
    let idx = match selected_msg {
        Some(i) => i,
        None => return colormap_idx,
    };
    if idx >= messages.len() {
        return colormap_idx;
    }
    let name = to_lower(messages[idx].name.as_str());
    let cmap = colormap_for_name(name.as_str());
    match colormap_position(cmap) {
        Some(pos) => pos,
        None => {
            proof {
assert(COLORMAP_NAMES[0]@ == "temperature"@);
                assert(COLORMAP_NAMES[1]@ == "dewpoint"@);
                assert(COLORMAP_NAMES[2]@ == "wind"@);
                assert(COLORMAP_NAMES[3]@ == "reflectivity"@);
                assert(COLORMAP_NAMES[4]@ == "cape"@);
                assert(COLORMAP_NAMES[5]@ == "relative_humidity"@);
                assert(COLORMAP_NAMES[6]@ == "vorticity"@);
                assert(COLORMAP_NAMES[7]@ == "pressure"@);
                assert(COLORMAP_NAMES[8]@ == "precipitation"@);
                assert(COLORMAP_NAMES[9]@ == "snow"@);
                assert(COLORMAP_NAMES[10]@ == "ice"@);
                assert(COLORMAP_NAMES[11]@ == "visibility"@);
                assert(COLORMAP_NAMES[12]@ == "cloud_cover"@);
                assert(COLORMAP_NAMES[13]@ == "helicity"@);
                assert(COLORMAP_NAMES[14]@ == "divergence"@);
                assert(COLORMAP_NAMES[15]@ == "theta_e"@);
            }
            colormap_idx
        },
    }
}

/// How many recently opened files are remembered.
pub const RECENT_LIMIT: usize = 10;

/// `s` without the entries equal to `p`, in order.
pub open spec fn without_path(s: Seq<Seq<char>>, p: Seq<char>) -> Seq<Seq<char>>
    decreases s.len(),
{
    if s.len() == 0 {
        Seq::empty()
    } else if s.last() == p {
        without_path(s.drop_last(), p)
    } else {
        without_path(s.drop_last(), p).push(s.last())
    }
}

/// The recent-files list after opening `p`: `p` first, then the others in
/// their order without `p`, cut to the first ten.
pub open spec fn recent_after(recent: Seq<Seq<char>>, p: Seq<char>) -> Seq<Seq<char>> {
    let r = seq![p] + without_path(recent, p);
    if r.len() > RECENT_LIMIT {
        r.take(RECENT_LIMIT as int)
    } else {
        r
    }
}

/// Record that `path` was opened: it moves to the front of `recent`, which
/// keeps at most ten entries.
pub fn remember_recent(recent: &mut Vec<String>, path: String)
    ensures
        final(recent)@.map_values(|p: String| p@) == recent_after(old(recent)@.map_values(|p: String| p@), path@),
{
    let ghost old_view = recent@.map_values(|p: String| p@);
    let mut rest: Vec<String> = Vec::new();
    std::mem::swap(&mut rest, recent);
    assert(rest@.map_values(|p: String| p@) == old_view);
    let mut out: Vec<String> = Vec::new();
    let ghost pv = path@;
    let mut i: usize = 0;
    let ghost mut kept: Seq<Seq<char>> = Seq::empty();
    while i < rest.len()
        invariant
            i <= rest@.len(),
            old_view == rest@.map_values(|p: String| p@),
            pv == path@,
            kept == without_path(old_view.take(i as int), pv),
            out@.map_values(|p: String| p@) == kept,
        decreases rest@.len() - i,
    {
        proof {
            assert(old_view.take(i + 1).drop_last() =~= old_view.take(i as int));
            assert(old_view.take(i + 1).last() == old_view[i as int]);
        }
        if !str_eq(rest[i].as_str(), path.as_str()) {
            out.push(rest[i].clone());
            proof {
                kept = kept.push(old_view[i as int]);
                assert(out@.map_values(|p: String| p@) =~= kept);
            }
        }
        i += 1;
    }
    proof {
        assert(old_view.take(old_view.len() as int) =~= old_view);
    }
    out.insert(0, path);
    assert(out@.map_values(|p: String| p@) =~= seq![pv] + kept);
    if out.len() > RECENT_LIMIT {
        out.truncate(RECENT_LIMIT);
        assert(out@.map_values(|p: String| p@) =~= (seq![pv] + kept).take(RECENT_LIMIT as int));
    }
    *recent = out;
}

/// Dropping the entries equal to `p` leaves no entry equal to `p`, and
/// keeps a list without repeats without repeats.
proof fn lemma_without_path(s: Seq<Seq<char>>, p: Seq<char>)
    ensures
        forall|i: int| 0 <= i < without_path(s, p).len() ==> #[trigger] without_path(s, p)[i] != p,
        forall|i: int| 0 <= i < without_path(s, p).len() ==> s.contains(#[trigger] without_path(s, p)[i]),
        (forall|i: int, j: int| 0 <= i < j < s.len() ==> s[i] != s[j]) ==> (forall|i: int, j: int|
            0 <= i < j < without_path(s, p).len() ==> without_path(s, p)[i] != without_path(s, p)[j]),
    decreases s.len(),
{
    if s.len() > 0 {
        let t = s.drop_last();
        lemma_without_path(t, p);
        let w = without_path(t, p);
        assert forall|i: int| 0 <= i < w.len() implies s.contains(#[trigger] w[i]) by {
            let k = choose|k: int| 0 <= k < t.len() && t[k] == w[i];
            assert(s[k] == w[i]);
        }
        if s.last() != p {
            assert(without_path(s, p) == w.push(s.last()));
            assert(s[s.len() - 1] == s.last());
            if forall|i: int, j: int| 0 <= i < j < s.len() ==> s[i] != s[j] {
                assert forall|i: int, j: int| 0 <= i < j < t.len() implies t[i] != t[j] by {
                    assert(t[i] == s[i] && t[j] == s[j]);
                }
                assert forall|i: int| 0 <= i < w.len() implies #[trigger] w[i] != s.last() by {
                    let k = choose|k: int| 0 <= k < t.len() && t[k] == w[i];
                    assert(s[k] == t[k]);
                }
            }
        }
    }
}

/// After opening a file, it is the first recent file, the list holds at
/// most ten entries, and a list without repeats stays without repeats.
pub proof fn law_recent_files(recent: Seq<Seq<char>>, p: Seq<char>)
    ensures
        recent_after(recent, p).len() >= 1,
        recent_after(recent, p)[0] == p,
        recent_after(recent, p).len() <= RECENT_LIMIT,
        (forall|i: int, j: int| 0 <= i < j < recent.len() ==> recent[i] != recent[j]) ==> (forall|i: int, j: int|
            0 <= i < j < recent_after(recent, p).len() ==> recent_after(recent, p)[i] != recent_after(
                recent,
                p,
            )[j]),
{
    lemma_without_path(recent, p);
    let w = without_path(recent, p);
    let r = seq![p] + w;
    assert(r[0] == p);
    if forall|i: int, j: int| 0 <= i < j < recent.len() ==> recent[i] != recent[j] {
        assert forall|i: int, j: int| 0 <= i < j < r.len() implies r[i] != r[j] by {
            if i == 0 {
                assert(r[j] == w[j - 1]);
            } else {
                assert(r[i] == w[i - 1] && r[j] == w[j - 1]);
            }
        }
    }
}

/// The view the digit key `digit` switches to: 1 to 6 in the order of
/// `ALL_VIEWS`; none for other keys.
pub open spec fn view_for_digit(digit: u32) -> Option<View> {
    if 1 <= digit <= 6 {
        Some(ALL_VIEWS@[digit - 1])
    } else {
        None
    }
}

/// The view a digit key switches to (see `view_for_digit`).
pub fn view_shortcut(digit: u32) -> (r: Option<View>)
    ensures
        r == view_for_digit(digit),
{
    if 1 <= digit && digit <= 6 {
        Some(ALL_VIEWS[(digit - 1) as usize])
    } else {
        None
    }
}

/// The other render mode: the 'R' key switches between raster and filled
/// contours.
pub fn toggled_render_mode(mode: RenderMode) -> (r: RenderMode)
    ensures
        r == other_mode(mode),
{
    match mode {
        RenderMode::Raster => RenderMode::FilledContour,
        RenderMode::FilledContour => RenderMode::Raster,
    }
}

/// The mode the 'R' key gives for `mode`.
pub open spec fn other_mode(mode: RenderMode) -> RenderMode {
    match mode {
        RenderMode::Raster => RenderMode::FilledContour,
        RenderMode::FilledContour => RenderMode::Raster,
    }
}

/// Pressing 'R' twice gives back the mode one started from.
pub proof fn law_toggle_twice(mode: RenderMode)
    ensures
        other_mode(other_mode(mode)) == mode,
        other_mode(mode) != mode,
{
}

/// `n` spaces.
pub open spec fn spaces(n: nat) -> Seq<char> {
    Seq::new(n, |i: int| ' ')
}

/// The label of message `i` in the message list: its number right-aligned
/// in three columns, its name and its level.
pub open spec fn message_label_of(i: usize, name: Seq<char>, level: Seq<char>) -> Seq<char> {
    let d = decimal(i as nat);
    let pad = if d.len() < 3 { spaces((3 - d.len()) as nat) } else { Seq::empty() };
    pad + d + " | "@ + name + " @ "@ + level
}

/// The label of message `i` in the message list (see `message_label_of`).
pub fn message_label(i: usize, name: &str, level: &str) -> (r: String)
    ensures
        r@ == message_label_of(i, name@, level@),
{
    let len = decimal_len(i as u64);
    let mut s = String::new();
    assert(s@ =~= spaces(0));
    if len < 3 {
        let mut k: usize = 0;
        while k < 3 - len
            invariant
                len < 3,
                k <= 3 - len,
                s@ == spaces(k as nat),
            decreases 3 - len - k,
        {
            append(&mut s, " ");
            proof {
                reveal_strlit(" ");
            }
            assert(s@ =~= spaces((k + 1) as nat));
            k += 1;
        }
    } else {
        assert(s@ =~= Seq::<char>::empty());
    }
    push_decimal(&mut s, i as u64);
    append(&mut s, " | ");
    append(&mut s, name);
    append(&mut s, " @ ");
    append(&mut s, level);
    s
}

/// How the status line is coloured.
#[derive(Clone, Copy, PartialEq, Eq, Debug, Structural)]
pub enum StatusTone {
    Error,
    Success,
    Plain,
}

/// The tone of a status message: an error when it names "Error" or
/// "error", a success when it names "Exported" or "Done", else plain.
pub open spec fn tone_of(status: Seq<char>) -> StatusTone {
    if contains_seq(status, "Error"@) || contains_seq(status, "error"@) {
        StatusTone::Error
    } else if contains_seq(status, "Exported"@) || contains_seq(status, "Done"@) {
        StatusTone::Success
    } else {
        StatusTone::Plain
    }
}

/// The tone of a status message (see `tone_of`).
pub fn status_tone(status: &str) -> (r: StatusTone)
    ensures
        r == tone_of(status@),
{
    if str_contains(status, "Error") || str_contains(status, "error") {
        StatusTone::Error
    } else if str_contains(status, "Exported") || str_contains(status, "Done") {
        StatusTone::Success
    } else {
        StatusTone::Plain
    }
}

} // verus!
