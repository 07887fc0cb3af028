//! Station-model plotting: the 5x7 plot font, outlined labels, sky-cover
//! circles, present-weather labels and the choice of stations to plot.
use vstd::prelude::*;
use crate::raster::{
    draw_circle, fill_region, lemma_paint_all_concat, paint_all, plot, region_points, ring_points,
    Color, Point, Region,
};
use crate::text::{ascii_upper, contains_seq, str_contains, str_eq, upper_char};
use crate::tile_cache::{is_fresh, still_fresh};

verus! {

/// The glyph of character `c` in the plot font: seven rows of five pixels,
/// the leftmost pixel in the top bit of each row.
pub open spec fn plot_glyph(c: char) -> Option<[u8; 7]> {
    match c {
        '0' => Some([0x70, 0x88, 0x98, 0xa8, 0xc8, 0x88, 0x70]),
        '1' => Some([0x20, 0x60, 0x20, 0x20, 0x20, 0x20, 0x70]),
        '2' => Some([0x70, 0x88, 0x08, 0x30, 0x40, 0x80, 0xf8]),
        '3' => Some([0x70, 0x88, 0x08, 0x30, 0x08, 0x88, 0x70]),
        '4' => Some([0x10, 0x30, 0x50, 0x90, 0xf8, 0x10, 0x10]),
        '5' => Some([0xf8, 0x80, 0xf0, 0x08, 0x08, 0x88, 0x70]),
        '6' => Some([0x30, 0x40, 0x80, 0xf0, 0x88, 0x88, 0x70]),
        '7' => Some([0xf8, 0x08, 0x10, 0x20, 0x40, 0x40, 0x40]),
        '8' => Some([0x70, 0x88, 0x88, 0x70, 0x88, 0x88, 0x70]),
        '9' => Some([0x70, 0x88, 0x88, 0x78, 0x08, 0x10, 0x60]),
        '-' => Some([0x00, 0x00, 0x00, 0xf8, 0x00, 0x00, 0x00]),
        '.' => Some([0x00, 0x00, 0x00, 0x00, 0x00, 0x60, 0x60]),
        '/' => Some([0x08, 0x10, 0x10, 0x20, 0x40, 0x40, 0x80]),
        'M' => Some([0x88, 0xd8, 0xa8, 0xa8, 0x88, 0x88, 0x88]),
        'R' => Some([0xf0, 0x88, 0x88, 0xf0, 0xa0, 0x90, 0x88]),
        'S' => Some([0x70, 0x88, 0x80, 0x70, 0x08, 0x88, 0x70]),
        'N' => Some([0x88, 0xc8, 0xa8, 0x98, 0x88, 0x88, 0x88]),
        'F' => Some([0xf8, 0x80, 0x80, 0xf0, 0x80, 0x80, 0x80]),
        'G' => Some([0x70, 0x88, 0x80, 0xb8, 0x88, 0x88, 0x70]),
        'Z' => Some([0xf8, 0x08, 0x10, 0x20, 0x40, 0x80, 0xf8]),
        'T' => Some([0xf8, 0x20, 0x20, 0x20, 0x20, 0x20, 0x20]),
        'H' => Some([0x88, 0x88, 0x88, 0xf8, 0x88, 0x88, 0x88]),
        'A' => Some([0x70, 0x88, 0x88, 0xf8, 0x88, 0x88, 0x88]),
        'I' => Some([0x70, 0x20, 0x20, 0x20, 0x20, 0x20, 0x70]),
        'C' => Some([0x70, 0x88, 0x80, 0x80, 0x80, 0x88, 0x70]),
        ' ' => Some([0x00, 0x00, 0x00, 0x00, 0x00, 0x00, 0x00]),
        _ => None,
    }
}

/// The glyph for `ch`, looked up without regard to ASCII case.
pub fn get_glyph(ch: char) -> (g: Option<[u8; 7]>)
    ensures
        g == plot_glyph(ascii_upper(ch)),
{
    let c = upper_char(ch);
    match c {
        '0' => Some([0x70, 0x88, 0x98, 0xa8, 0xc8, 0x88, 0x70]),
        '1' => Some([0x20, 0x60, 0x20, 0x20, 0x20, 0x20, 0x70]),
        '2' => Some([0x70, 0x88, 0x08, 0x30, 0x40, 0x80, 0xf8]),
        '3' => Some([0x70, 0x88, 0x08, 0x30, 0x08, 0x88, 0x70]),
        '4' => Some([0x10, 0x30, 0x50, 0x90, 0xf8, 0x10, 0x10]),
        '5' => Some([0xf8, 0x80, 0xf0, 0x08, 0x08, 0x88, 0x70]),
        '6' => Some([0x30, 0x40, 0x80, 0xf0, 0x88, 0x88, 0x70]),
        '7' => Some([0xf8, 0x08, 0x10, 0x20, 0x40, 0x40, 0x40]),
        '8' => Some([0x70, 0x88, 0x88, 0x70, 0x88, 0x88, 0x70]),
        '9' => Some([0x70, 0x88, 0x88, 0x78, 0x08, 0x10, 0x60]),
        '-' => Some([0x00, 0x00, 0x00, 0xf8, 0x00, 0x00, 0x00]),
        '.' => Some([0x00, 0x00, 0x00, 0x00, 0x00, 0x60, 0x60]),
        '/' => Some([0x08, 0x10, 0x10, 0x20, 0x40, 0x40, 0x80]),
        'M' => Some([0x88, 0xd8, 0xa8, 0xa8, 0x88, 0x88, 0x88]),
        'R' => Some([0xf0, 0x88, 0x88, 0xf0, 0xa0, 0x90, 0x88]),
        'S' => Some([0x70, 0x88, 0x80, 0x70, 0x08, 0x88, 0x70]),
        'N' => Some([0x88, 0xc8, 0xa8, 0x98, 0x88, 0x88, 0x88]),
        'F' => Some([0xf8, 0x80, 0x80, 0xf0, 0x80, 0x80, 0x80]),
        'G' => Some([0x70, 0x88, 0x80, 0xb8, 0x88, 0x88, 0x70]),
        'Z' => Some([0xf8, 0x08, 0x10, 0x20, 0x40, 0x80, 0xf8]),
        'T' => Some([0xf8, 0x20, 0x20, 0x20, 0x20, 0x20, 0x20]),
        'H' => Some([0x88, 0x88, 0x88, 0xf8, 0x88, 0x88, 0x88]),
        'A' => Some([0x70, 0x88, 0x88, 0xf8, 0x88, 0x88, 0x88]),
        'I' => Some([0x70, 0x20, 0x20, 0x20, 0x20, 0x20, 0x70]),
        'C' => Some([0x70, 0x88, 0x80, 0x80, 0x80, 0x88, 0x70]),
        ' ' => Some([0x00, 0x00, 0x00, 0x00, 0x00, 0x00, 0x00]),
        _ => None,
    }
}

/// Whether column `col` (0 = leftmost) of a glyph row is lit.
pub open spec fn lit(bits: u8, col: u8) -> bool {
    bits & (0x80u8 >> col) != 0
}

/// Lit pixels of one glyph row drawn at `(x, y)`, from column `col` on.
pub open spec fn glyph_row_points(bits: u8, x: int, y: int, col: int) -> Seq<Point>
    decreases 5 - col,
{
    if col < 0 || col >= 5 {
        Seq::empty()
    } else {
        (if lit(bits, col as u8) {
            seq![(x + col, y)]
        } else {
            Seq::empty()
        }) + glyph_row_points(bits, x, y, col + 1)
    }
}

/// Lit pixels of a glyph with its top-left corner at `(x, y)`, from row `row` on.
pub open spec fn glyph_points(g: [u8; 7], x: int, y: int, row: int) -> Seq<Point>
    decreases 7 - row,
{
    if row < 0 || row >= 7 {
        Seq::empty()
    } else {
        glyph_row_points(g[row], x, y + row, 0) + glyph_points(g, x, y, row + 1)
    }
}

/// Lit pixels of `text` drawn from `(x, y)`: each character takes six
/// columns, and one without a glyph leaves its cell empty.
pub open spec fn text_points(x: int, y: int, text: Seq<char>) -> Seq<Point>
    decreases text.len(),
{
    if text.len() == 0 {
        Seq::empty()
    } else {
        (match plot_glyph(ascii_upper(text[0])) {
            Some(g) => glyph_points(g, x, y, 0),
            None => Seq::empty(),
        }) + text_points(x + 6, y, text.drop_first())
    }
}

/// Draw the lit pixels of one glyph row.
fn draw_glyph_row(pixels: &mut [u8], width: usize, bits: u8, x: i64, y: i64, color: Color)
    requires
        width <= usize::MAX / 1024,
        -0x8000_0000 <= x <= 0x8000_0000,
        -0x8000_0000 <= y <= 0x8000_0008,
    ensures
        final(pixels)@ == paint_all(old(pixels)@, width as int, glyph_row_points(bits, x as int, y as int, 0), color),
{
    let mut col: u8 = 0;
    while col < 5
        invariant
            width <= usize::MAX / 1024,
            -0x8000_0000 <= x <= 0x8000_0000,
            col <= 5,
            paint_all(old(pixels)@, width as int, glyph_row_points(bits, x as int, y as int, 0), color)
                == paint_all(pixels@, width as int, glyph_row_points(bits, x as int, y as int, col as int), color),
        decreases 5 - col,
    {
        let on = bits & (0x80u8 >> col) != 0;
        let ghost before = pixels@;
        let ghost head = if on { seq![(x + col, y as int)] } else { Seq::<Point>::empty() };
        let ghost tail = glyph_row_points(bits, x as int, y as int, col + 1);
        proof {
            assert(glyph_row_points(bits, x as int, y as int, col as int) == head + tail);
            lemma_paint_all_concat(before, width as int, head, tail, color);
        }
        if on {
            plot(pixels, width, x + col as i64, y, color);
            proof {
                reveal_with_fuel(paint_all, 2);
                assert(head.drop_first() =~= Seq::<Point>::empty());
            }
        }
        col += 1;
    }
}

/// Draw the lit pixels of a glyph with its top-left corner at `(x, y)`.
fn draw_glyph(pixels: &mut [u8], width: usize, g: [u8; 7], x: i64, y: i64, color: Color)
    requires
        width <= usize::MAX / 1024,
        -0x8000_0000 <= x <= 0x8000_0000,
        -0x8000_0000 <= y <= 0x8000_0000,
    ensures
        final(pixels)@ == paint_all(old(pixels)@, width as int, glyph_points(g, x as int, y as int, 0), color),
{
    let mut row: usize = 0;
    while row < 7
        invariant
            width <= usize::MAX / 1024,
            -0x8000_0000 <= x <= 0x8000_0000,
            -0x8000_0000 <= y <= 0x8000_0000,
            row <= 7,
            paint_all(old(pixels)@, width as int, glyph_points(g, x as int, y as int, 0), color)
                == paint_all(pixels@, width as int, glyph_points(g, x as int, y as int, row as int), color),
        decreases 7 - row,
    {
        let ghost before = pixels@;
        proof {
            lemma_paint_all_concat(
                before,
                width as int,
                glyph_row_points(g[row as int], x as int, y + row, 0),
                glyph_points(g, x as int, y as int, row + 1),
                color,
            );
        }
        draw_glyph_row(pixels, width, g[row], x, y + row as i64, color);
        row += 1;
    }
}

/// Draw text in the plot font, each character six pixels right of the last.
pub fn draw_text(pixels: &mut [u8], width: usize, x: i32, y: i32, text: &str, color: Color)
    requires
        width <= usize::MAX / 1024,
        x + 6 * text@.len() <= i32::MAX,
    ensures
        final(pixels)@ == paint_all(old(pixels)@, width as int, text_points(x as int, y as int, text@), color),
{
    let chars = crate::text::chars_of(text);
    let mut i: usize = 0;
    let mut cx: i64 = x as i64;
    assert(text@.subrange(0, text@.len() as int) =~= text@);
    while i < chars.len()
        invariant
            width <= usize::MAX / 1024,
            chars@ == text@,
            i <= chars.len(),
            cx == x + 6 * i,
            x + 6 * text@.len() <= i32::MAX,
            paint_all(old(pixels)@, width as int, text_points(x as int, y as int, text@), color)
                == paint_all(pixels@, width as int, text_points(cx as int, y as int, text@.subrange(i as int, text@.len() as int)), color),
        decreases chars.len() - i,
    {
        let ghost rest = text@.subrange(i as int, text@.len() as int);
        let ghost before = pixels@;
        let ch = chars[i];
        proof {
            assert(rest[0] == ch);
            assert(rest.drop_first() =~= text@.subrange(i + 1, text@.len() as int));
        }
        match get_glyph(ch) {
            Some(g) => {
                proof {
                    lemma_paint_all_concat(
                        before,
                        width as int,
                        glyph_points(g, cx as int, y as int, 0),
                        text_points(cx + 6, y as int, rest.drop_first()),
                        color,
                    );
                }
                draw_glyph(pixels, width, g, cx, y as i64, color);
            },
            None => {},
        }
        cx += 6;
        i += 1;
    }
    proof {
        assert(text@.subrange(i as int, text@.len() as int) =~= Seq::<char>::empty());
    }
}

} // verus!

verus! {

/// The translucent black of label outlines.
pub open spec fn outline_color() -> Color {
    [0, 0, 0, 160]
}

/// Offsets of the eight outline copies of a label, in drawing order.
pub open spec fn outline_offsets() -> Seq<(int, int)> {
    seq![(-1, -1), (0, -1), (1, -1), (-1, 0), (1, 0), (-1, 1), (0, 1), (1, 1)]
}

/// Pixels of the outline copies of a label drawn from `(x, y)`, from the
/// `k`-th offset on.
pub open spec fn outline_points(x: int, y: int, text: Seq<char>, k: int) -> Seq<Point>
    decreases 8 - k,
{
    if k < 0 || k >= 8 {
        Seq::empty()
    } else {
        text_points(x + outline_offsets()[k].0, y + outline_offsets()[k].1, text) + outline_points(
            x,
            y,
            text,
            k + 1,
        )
    }
}

/// The buffer after drawing an outlined label: eight translucent black
/// copies around it, then the label itself in `color`.
pub open spec fn paint_outlined(
    px: Seq<u8>,
    width: int,
    x: int,
    y: int,
    text: Seq<char>,
    color: Color,
) -> Seq<u8> {
    paint_all(
        paint_all(px, width, outline_points(x, y, text, 0), outline_color()),
        width,
        text_points(x, y, text),
        color,
    )
}

/// Draw text with a dark outline/shadow for readability.
pub fn draw_text_outlined(pixels: &mut [u8], width: usize, x: i32, y: i32, text: &str, color: Color)
    requires
        width <= usize::MAX / 1024,
        i32::MIN < x,
        x + 1 + 6 * text@.len() <= i32::MAX,
        i32::MIN < y < i32::MAX,
    ensures
        final(pixels)@ == paint_outlined(old(pixels)@, width as int, x as int, y as int, text@, color),
{
    let bg: Color = [0, 0, 0, 160];
    let ghost w = width as int;
    let mut dy: i32 = -1;
    let mut k: usize = 0;
    while dy <= 1
        invariant
            width <= usize::MAX / 1024,
            i32::MIN < x,
            x + 1 + 6 * text@.len() <= i32::MAX,
            i32::MIN < y < i32::MAX,
            -1 <= dy <= 2,
            k == 3 * (dy + 1) - (if dy > 0 { 1int } else { 0int }),
            bg == outline_color(),
            w == width,
            paint_all(old(pixels)@, w, outline_points(x as int, y as int, text@, 0), bg)
                == paint_all(pixels@, w, outline_points(x as int, y as int, text@, k as int), bg),
        decreases 2 - dy,
    {
        let mut dx: i32 = -1;
        while dx <= 1
            invariant
                width <= usize::MAX / 1024,
                i32::MIN < x,
                x + 1 + 6 * text@.len() <= i32::MAX,
                i32::MIN < y < i32::MAX,
                -1 <= dy <= 1,
                -1 <= dx <= 2,
                k == 3 * (dy + 1) + (dx + 1) - (if dy > 0 || (dy == 0 && dx > 0) { 1int } else { 0int }),
                bg == outline_color(),
                w == width,
                paint_all(old(pixels)@, w, outline_points(x as int, y as int, text@, 0), bg)
                    == paint_all(pixels@, w, outline_points(x as int, y as int, text@, k as int), bg),
            decreases 2 - dx,
        {
            if dx != 0 || dy != 0 {
                proof {
                    assert(outline_offsets()[k as int] == (dx as int, dy as int));
                    assert(outline_points(x as int, y as int, text@, k as int) == text_points(
                        x + dx,
                        y + dy,
                        text@,
                    ) + outline_points(x as int, y as int, text@, k + 1));
                    lemma_paint_all_concat(
                        pixels@,
                        w,
                        text_points(x + dx, y + dy, text@),
                        outline_points(x as int, y as int, text@, k + 1),
                        bg,
                    );
                }
                draw_text(pixels, width, x + dx, y + dy, text, bg);
                k += 1;
            }
            dx += 1;
        }
        dy += 1;
    }
    proof {
        assert(k == 8);
        assert(outline_points(x as int, y as int, text@, 8) =~= Seq::<Point>::empty());
    }
    draw_text(pixels, width, x, y, text, color);
}

} // verus!

verus! {

/// Opaque black.
pub const BLACK: Color = [0, 0, 0, 255];
/// Label green (dewpoint, rain).
pub const GREEN: Color = [0, 160, 60, 255];
/// Label cyan (snow, ice).
pub const CYAN: Color = [0, 180, 220, 255];
/// Label yellow (fog, mist, haze).
pub const YELLOW: Color = [220, 200, 0, 255];
/// Label magenta (thunder, freezing precipitation).
pub const MAGENTA: Color = [180, 0, 180, 255];
/// Label gray (smoke).
pub const SMOKE_GRAY: Color = [160, 160, 160, 255];

/// Reported sky cover, from clear to obscured.
#[derive(Clone, Copy, Debug, PartialEq, Eq, Structural)]
pub enum SkyCoverType {
    Clear,
    Few,
    Scattered,
    Broken,
    Overcast,
    Obscured,
}

/// Pixels of the sky-cover symbol of radius `r` around `(cx, cy)`: an
/// outline, with a wedge (few), the left half (scattered) or all but the
/// upper-right quadrant (broken) filled; overcast and obscured skies are a
/// filled disk.
pub open spec fn sky_cover_points(cx: int, cy: int, r: int, cover: SkyCoverType) -> Seq<Point> {
    match cover {
        SkyCoverType::Clear => ring_points(cx, cy, r),
        SkyCoverType::Few => ring_points(cx, cy, r) + region_points(cx, cy, r, Region::LowerRightWedge),
        SkyCoverType::Scattered => ring_points(cx, cy, r) + region_points(cx, cy, r, Region::LeftHalf),
        SkyCoverType::Broken => ring_points(cx, cy, r) + region_points(
            cx,
            cy,
            r,
            Region::AllButUpperRight,
        ),
        _ => region_points(cx, cy, r, Region::Disk),
    }
}

/// Draw the sky-cover symbol in black.
pub fn draw_sky_cover(
    pixels: &mut [u8],
    width: usize,
    cx: i32,
    cy: i32,
    radius: i32,
    cover: SkyCoverType,
)
    requires
        width <= usize::MAX / 1024,
        -46340 <= radius <= 46340,
        -0x7fff_0000 <= cx <= 0x7fff_0000,
        -0x7fff_0000 <= cy <= 0x7fff_0000,
    ensures
        final(pixels)@ == paint_all(
            old(pixels)@,
            width as int,
            sky_cover_points(cx as int, cy as int, radius as int, cover),
            BLACK,
        ),
{
    let kind = match cover {
        SkyCoverType::Clear => {
            draw_circle(pixels, width, cx, cy, radius, BLACK, false);
            return;
        },
        SkyCoverType::Few => Region::LowerRightWedge,
        SkyCoverType::Scattered => Region::LeftHalf,
        SkyCoverType::Broken => Region::AllButUpperRight,
        _ => {
            draw_circle(pixels, width, cx, cy, radius, BLACK, true);
            return;
        },
    };
    proof {
        lemma_paint_all_concat(
            old(pixels)@,
            width as int,
            ring_points(cx as int, cy as int, radius as int),
            region_points(cx as int, cy as int, radius as int, kind),
            BLACK,
        );
    }
    draw_circle(pixels, width, cx, cy, radius, BLACK, false);
    fill_region(pixels, width, cx, cy, radius, kind, BLACK);
}

/// The abbreviated label and color shown for a present-weather string, in
/// order of precedence; `None` for weather that is not plotted.
pub open spec fn weather_label(wx: Seq<char>) -> Option<(Seq<char>, Color)> {
    if contains_seq(wx, "TS"@) {
        Some(("TS"@, MAGENTA))
    } else if contains_seq(wx, "SN"@) {
        Some(("SN"@, CYAN))
    } else if contains_seq(wx, "FZ"@) && (contains_seq(wx, "RA"@) || contains_seq(wx, "DZ"@)) {
        Some(("ZR"@, MAGENTA))
    } else if contains_seq(wx, "RA"@) {
        Some(("RA"@, GREEN))
    } else if contains_seq(wx, "DZ"@) {
        Some(("DZ"@, GREEN))
    } else if contains_seq(wx, "FG"@) {
        Some(("FG"@, YELLOW))
    } else if contains_seq(wx, "BR"@) {
        Some(("BR"@, YELLOW))
    } else if contains_seq(wx, "HZ"@) {
        Some(("HZ"@, YELLOW))
    } else if contains_seq(wx, "FU"@) || contains_seq(wx, "SMOKE"@) {
        Some(("FU"@, SMOKE_GRAY))
    } else if contains_seq(wx, "PL"@) || contains_seq(wx, "IC"@) {
        Some(("IC"@, CYAN))
    } else {
        None
    }
}

/// Draw the outlined present-weather label at `(x, y)`, if the weather is
/// one that is plotted.
pub fn draw_weather_symbol(pixels: &mut [u8], width: usize, x: i32, y: i32, wx: &str)
    requires
        width <= usize::MAX / 1024,
        weather_label(wx@) is Some ==> i32::MIN < x && x + 13 <= i32::MAX && i32::MIN < y
            < i32::MAX,
    ensures
        final(pixels)@ == match weather_label(wx@) {
            Some((t, c)) => paint_outlined(old(pixels)@, width as int, x as int, y as int, t, c),
            None => old(pixels)@,
        },
{
    let (text, color): (&str, Color) = if str_contains(wx, "TS") {
        ("TS", MAGENTA)
    } else if str_contains(wx, "SN") {
        ("SN", CYAN)
    } else if str_contains(wx, "FZ") && str_contains(wx, "RA") {
        ("ZR", MAGENTA)
    } else if str_contains(wx, "FZ") && str_contains(wx, "DZ") {
        ("ZR", MAGENTA)
    } else if str_contains(wx, "RA") {
        ("RA", GREEN)
    } else if str_contains(wx, "DZ") {
        ("DZ", GREEN)
    } else if str_contains(wx, "FG") {
        ("FG", YELLOW)
    } else if str_contains(wx, "BR") {
        ("BR", YELLOW)
    } else if str_contains(wx, "HZ") {
        ("HZ", YELLOW)
    } else if str_contains(wx, "FU") || str_contains(wx, "SMOKE") {
        ("FU", SMOKE_GRAY)
    } else if str_contains(wx, "PL") || str_contains(wx, "IC") {
        ("IC", CYAN)
    } else {
        return;
    };
    proof {
        reveal_strlit("TS");
        reveal_strlit("SN");
        reveal_strlit("ZR");
        reveal_strlit("RA");
        reveal_strlit("DZ");
        reveal_strlit("FG");
        reveal_strlit("BR");
        reveal_strlit("HZ");
        reveal_strlit("FU");
        reveal_strlit("IC");
    }
    draw_text_outlined(pixels, width, x, y, text, color);
}

} // verus!

verus! {

/// Stations plotted at low zoom.
pub const MAJOR_AIRPORTS: [&'static str; 55] = [
    "KATL", "KBOS", "KBWI", "KCLE", "KCLT", "KCVG", "KDAL", "KDCA",
    "KDEN", "KDFW", "KDTW", "KEWR", "KFLL", "KHOU", "KIAD", "KIAH",
    "KJFK", "KLAS", "KLAX", "KLGA", "KMCI", "KMCO", "KMDW", "KMEM",
    "KMIA", "KMKE", "KMIN", "KMSP", "KMSY", "KOAK", "KOKC", "KOMA",
    "KORD", "KPBI", "KPDX", "KPHL", "KPHX", "KPIT", "KRDU", "KRNO",
    "KSAN", "KSAT", "KSDF", "KSEA", "KSFO", "KSJC", "KSLC", "KSMF",
    "KSTL", "KTPA", "KTUL", "KTUS", "PANC", "PAFA", "PHNL",
];

/// Whether `id` is one of the major airports.
pub fn is_major_airport(id: &str) -> (r: bool)
    ensures
        r == exists|i: int| 0 <= i < MAJOR_AIRPORTS.len() && (#[trigger] MAJOR_AIRPORTS[i])@ == id@,
{
    let mut i: usize = 0;
    while i < MAJOR_AIRPORTS.len()
        invariant
            i <= MAJOR_AIRPORTS.len(),
            forall|j: int| 0 <= j < i ==> (#[trigger] MAJOR_AIRPORTS[j])@ != id@,
        decreases MAJOR_AIRPORTS.len() - i,
    {
        if str_eq(MAJOR_AIRPORTS[i], id) {
            return true;
        }
        i += 1;
    }
    false
}

/// One reported cloud layer: its cover code and, when reported, its base
/// in feet.
#[derive(Clone, Debug)]
pub struct CloudLayer {
    pub cover: String,
    pub base: Option<u64>,
}

/// The sky cover named by a layer's cover code; `None` for a code that is
/// not recognised.
pub open spec fn cover_kind(code: Seq<char>) -> Option<SkyCoverType> {
    if code == "CLR"@ || code == "SKC"@ || code == "CAVOK"@ {
        Some(SkyCoverType::Clear)
    } else if code == "FEW"@ {
        Some(SkyCoverType::Few)
    } else if code == "SCT"@ {
        Some(SkyCoverType::Scattered)
    } else if code == "BKN"@ {
        Some(SkyCoverType::Broken)
    } else if code == "OVC"@ {
        Some(SkyCoverType::Overcast)
    } else if code == "VV"@ || code == "OVX"@ {
        Some(SkyCoverType::Obscured)
    } else {
        None
    }
}

/// Position of a sky cover in the order from clear to obscured.
pub open spec fn cover_rank(c: SkyCoverType) -> int {
    match c {
        SkyCoverType::Clear => 0,
        SkyCoverType::Few => 1,
        SkyCoverType::Scattered => 2,
        SkyCoverType::Broken => 3,
        SkyCoverType::Overcast => 4,
        SkyCoverType::Obscured => 5,
    }
}

/// The worst sky cover among the recognised layers (clear when there is none).
pub open spec fn worst_cover(layers: Seq<CloudLayer>) -> SkyCoverType
    decreases layers.len(),
{
    if layers.len() == 0 {
        SkyCoverType::Clear
    } else {
        let w = worst_cover(layers.drop_last());
        match cover_kind(layers.last().cover@) {
            Some(k) => if cover_rank(k) > cover_rank(w) {
                k
            } else {
                w
            },
            None => w,
        }
    }
}

/// The ceiling: the lowest base, truncated to 32 bits, among recognised
/// broken, overcast or obscured layers that report one.
pub open spec fn ceiling(layers: Seq<CloudLayer>) -> Option<u32>
    decreases layers.len(),
{
    if layers.len() == 0 {
        None
    } else {
        let c = ceiling(layers.drop_last());
        let l = layers.last();
        match (cover_kind(l.cover@), l.base) {
            (Some(k), Some(b)) => if cover_rank(k) >= 3 {
                let b32 = b as u32;
                match c {
                    Some(prev) => Some(if prev <= b32 { prev } else { b32 }),
                    None => Some(b32),
                }
            } else {
                c
            },
            _ => c,
        }
    }
}

/// The sky cover for a code, as `cover_kind` gives it.
fn classify_cover(code: &str) -> (r: Option<SkyCoverType>)
    ensures
        r == cover_kind(code@),
{
    if str_eq(code, "CLR") || str_eq(code, "SKC") || str_eq(code, "CAVOK") {
        Some(SkyCoverType::Clear)
    } else if str_eq(code, "FEW") {
        Some(SkyCoverType::Few)
    } else if str_eq(code, "SCT") {
        Some(SkyCoverType::Scattered)
    } else if str_eq(code, "BKN") {
        Some(SkyCoverType::Broken)
    } else if str_eq(code, "OVC") {
        Some(SkyCoverType::Overcast)
    } else if str_eq(code, "VV") || str_eq(code, "OVX") {
        Some(SkyCoverType::Obscured)
    } else {
        None
    }
}

/// Rank of a sky cover, as `cover_rank` gives it.
fn rank(c: SkyCoverType) -> (r: u8)
    ensures
        r as int == cover_rank(c),
{
    match c {
        SkyCoverType::Clear => 0,
        SkyCoverType::Few => 1,
        SkyCoverType::Scattered => 2,
        SkyCoverType::Broken => 3,
        SkyCoverType::Overcast => 4,
        SkyCoverType::Obscured => 5,
    }
}

/// The overall sky cover and ceiling of an observation's cloud layers.
pub fn parse_sky_cover(clouds: &Vec<CloudLayer>) -> (r: (SkyCoverType, Option<u32>))
    ensures
        r == (worst_cover(clouds@), ceiling(clouds@)),
{
    let mut worst = SkyCoverType::Clear;
    let mut ceil: Option<u32> = None;
    let mut i: usize = 0;
    while i < clouds.len()
        invariant
            i <= clouds.len(),
            worst == worst_cover(clouds@.take(i as int)),
            ceil == ceiling(clouds@.take(i as int)),
        decreases clouds.len() - i,
    {
        let layer = &clouds[i];
        proof {
            assert(clouds@.take(i + 1).drop_last() =~= clouds@.take(i as int));
            assert(clouds@.take(i + 1).last() == clouds@[i as int]);
        }
        match classify_cover(layer.cover.as_str()) {
            Some(sc) => {
                if rank(sc) > rank(worst) {
                    worst = sc;
                }
                if rank(sc) >= 3 {
                    match layer.base {
                        Some(b) => {
                            let b32 = b as u32;
                            ceil = match ceil {
                                Some(c) => Some(if c <= b32 { c } else { b32 }),
                                None => Some(b32),
                            };
                        },
                        None => {},
                    }
                }
            },
            None => {},
        }
        i += 1;
    }
    proof {
        assert(clouds@.take(clouds@.len() as int) =~= clouds@);
    }
    (worst, ceil)
}

/// Wind-barb symbols for a speed in knots: pennants of 50 kt, full barbs of
/// 10 kt, and a half barb when 3 kt or more remain.
pub fn barb_counts(speed_kt: u16) -> (r: (u16, u16, u16))
    ensures
        r.0 == speed_kt / 50,
        r.1 == speed_kt % 50 / 10,
        r.2 == (if speed_kt % 10 >= 3 { 1u16 } else { 0u16 }),
{
    let mut remaining = speed_kt;
    let flags = remaining / 50;
    remaining %= 50;
    let full_barbs = remaining / 10;
    remaining %= 10;
    assert(remaining == speed_kt % 10);
    let half_barbs: u16 = if remaining >= 3 { 1 } else { 0 };
    (flags, full_barbs, half_barbs)
}

/// Seconds a bulk download of surface observations is kept.
pub const METAR_TTL_SECS: u64 = 300;

/// The last bulk download of surface observations and when it was made.
pub struct MetarCache<V> {
    data: Option<(V, u64)>,
}

impl<V> MetarCache<V> {
    /// The download held and its time, if any.
    pub closed spec fn view(&self) -> Option<(V, u64)> {
        self.data
    }

    /// An empty cache.
    pub fn new() -> (r: Self)
        ensures
            r.view() is None,
    {
        MetarCache { data: None }
    }

    /// The observations held, if downloaded less than five minutes before
    /// `now`; `None` asks for a new download.
    pub fn fresh_obs(&self, now: u64) -> (r: Option<&V>)
        ensures
            match self.view() {
                Some((obs, t)) => if is_fresh(t, now, METAR_TTL_SECS) {
                    r == Some(&obs)
                } else {
                    r is None
                },
                None => r is None,
            },
    {
        match &self.data {
            Some((obs, t)) => if still_fresh(*t, now, METAR_TTL_SECS) {
                Some(obs)
            } else {
                None
            },
            None => None,
        }
    }

    /// Hold `obs`, downloaded at `now`, in place of what was held.
    pub fn store_obs(&mut self, obs: V, now: u64)
        ensures
            final(self).view() == Some((obs, now)),
    {
        self.data = Some((obs, now));
    }
}

} // verus!
