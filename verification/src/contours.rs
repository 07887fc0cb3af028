//! Contour-label text: the digit font and the outlined labels drawn on
//! 256x256 RGBA contour tiles.
use vstd::prelude::*;
use crate::raster::Point;
use crate::station_plot::outline_offsets;
use crate::text::{chars_of, str_eq, to_lower, unicode_lower};

verus! {

/// The glyph of `c` in the contour-label font: seven rows of five pixels,
/// the leftmost pixel in bit 4; blank for characters it lacks.
pub open spec fn contour_glyph(c: char) -> [u8; 7] {
    match c {
        '0' => [0b01110, 0b10001, 0b10011, 0b10101, 0b11001, 0b10001, 0b01110],
        '1' => [0b00100, 0b01100, 0b00100, 0b00100, 0b00100, 0b00100, 0b01110],
        '2' => [0b01110, 0b10001, 0b00001, 0b00110, 0b01000, 0b10000, 0b11111],
        '3' => [0b01110, 0b10001, 0b00001, 0b00110, 0b00001, 0b10001, 0b01110],
        '4' => [0b00010, 0b00110, 0b01010, 0b10010, 0b11111, 0b00010, 0b00010],
        '5' => [0b11111, 0b10000, 0b11110, 0b00001, 0b00001, 0b10001, 0b01110],
        '6' => [0b01110, 0b10000, 0b11110, 0b10001, 0b10001, 0b10001, 0b01110],
        '7' => [0b11111, 0b00001, 0b00010, 0b00100, 0b01000, 0b01000, 0b01000],
        '8' => [0b01110, 0b10001, 0b10001, 0b01110, 0b10001, 0b10001, 0b01110],
        '9' => [0b01110, 0b10001, 0b10001, 0b01111, 0b00001, 0b00001, 0b01110],
        '-' => [0b00000, 0b00000, 0b00000, 0b11111, 0b00000, 0b00000, 0b00000],
        '.' => [0b00000, 0b00000, 0b00000, 0b00000, 0b00000, 0b01100, 0b01100],
        _ => [0, 0, 0, 0, 0, 0, 0],
    }
}

/// 5x7 bitmap font glyphs for digits, minus sign, and period.
pub fn char_glyph(c: char) -> (g: [u8; 7])
    ensures
        g == contour_glyph(c),
{
    match c {
        '0' => [0b01110, 0b10001, 0b10011, 0b10101, 0b11001, 0b10001, 0b01110],
        '1' => [0b00100, 0b01100, 0b00100, 0b00100, 0b00100, 0b00100, 0b01110],
        '2' => [0b01110, 0b10001, 0b00001, 0b00110, 0b01000, 0b10000, 0b11111],
        '3' => [0b01110, 0b10001, 0b00001, 0b00110, 0b00001, 0b10001, 0b01110],
        '4' => [0b00010, 0b00110, 0b01010, 0b10010, 0b11111, 0b00010, 0b00010],
        '5' => [0b11111, 0b10000, 0b11110, 0b00001, 0b00001, 0b10001, 0b01110],
        '6' => [0b01110, 0b10000, 0b11110, 0b10001, 0b10001, 0b10001, 0b01110],
        '7' => [0b11111, 0b00001, 0b00010, 0b00100, 0b01000, 0b01000, 0b01000],
        '8' => [0b01110, 0b10001, 0b10001, 0b01110, 0b10001, 0b10001, 0b01110],
        '9' => [0b01110, 0b10001, 0b10001, 0b01111, 0b00001, 0b00001, 0b01110],
        '-' => [0b00000, 0b00000, 0b00000, 0b11111, 0b00000, 0b00000, 0b00000],
        '.' => [0b00000, 0b00000, 0b00000, 0b00000, 0b00000, 0b01100, 0b01100],
        _ => [0; 7],
    }
}

/// Whether column `col` (0 = leftmost) of a five-pixel glyph row is lit.
pub open spec fn bit5(bits: u8, col: int) -> bool {
    (bits >> ((4 - col) as u8)) & 1u8 == 1u8
}

/// Lit pixels of one glyph row drawn at `(x, y)`, from column `col` on.
pub open spec fn row5_points(bits: u8, x: int, y: int, col: int) -> Seq<Point>
    decreases 5 - col,
{
    if col < 0 || col >= 5 {
        Seq::empty()
    } else {
        (if bit5(bits, col) {
            seq![(x + col, y)]
        } else {
            Seq::empty()
        }) + row5_points(bits, x, y, col + 1)
    }
}

/// Lit pixels of a glyph with its top-left corner at `(x, y)`, from row
/// `row` on.
pub open spec fn glyph5_points(g: [u8; 7], x: int, y: int, row: int) -> Seq<Point>
    decreases 7 - row,
{
    if row < 0 || row >= 7 {
        Seq::empty()
    } else {
        row5_points(g[row], x, y + row, 0) + glyph5_points(g, x, y, row + 1)
    }
}

/// Lit pixels of `text` drawn with its first cell at `(x, y)`, each
/// character six pixels right of the last.
pub open spec fn label_points(x: int, y: int, text: Seq<char>) -> Seq<Point>
    decreases text.len(),
{
    if text.len() == 0 {
        Seq::empty()
    } else {
        glyph5_points(contour_glyph(text[0]), x, y, 0) + label_points(x + 6, y, text.drop_first())
    }
}

/// `(x, y)` lies on the tile.
pub open spec fn on_tile(x: int, y: int) -> bool {
    0 <= x < 256 && 0 <= y < 256
}

/// Byte offset of tile pixel `(x, y)`.
pub open spec fn tile_offset(x: int, y: int) -> int {
    (y * 256 + x) * 4
}

/// The tile after shading `(x, y)`: a pixel on the tile that is less than
/// about two-thirds opaque becomes translucent black.
pub open spec fn shade(px: Seq<u8>, x: int, y: int) -> Seq<u8> {
    let i = tile_offset(x, y);
    if on_tile(x, y) && px[i + 3] < 160 {
        px.update(i, 0).update(i + 1, 0).update(i + 2, 0).update(i + 3, 180)
    } else {
        px
    }
}

/// The tile after shading the neighbours of `(x, y)` from the `k`-th on.
pub open spec fn shade_around(px: Seq<u8>, x: int, y: int, k: int) -> Seq<u8>
    decreases 8 - k,
{
    if k < 0 || k >= 8 {
        px
    } else {
        shade_around(shade(px, x + outline_offsets()[k].0, y + outline_offsets()[k].1), x, y, k + 1)
    }
}

/// The tile after stamping a label pixel at `(x, y)`: its neighbours shaded,
/// then the pixel itself in `c` at high opacity; nothing off the tile.
pub open spec fn stamp(px: Seq<u8>, x: int, y: int, c: (u8, u8, u8)) -> Seq<u8> {
    if on_tile(x, y) {
        let p = shade_around(px, x, y, 0);
        let i = tile_offset(x, y);
        p.update(i, c.0).update(i + 1, c.1).update(i + 2, c.2).update(i + 3, 240)
    } else {
        px
    }
}

/// The tile after stamping each of `pts`, in order.
pub open spec fn stamp_all(px: Seq<u8>, pts: Seq<Point>, c: (u8, u8, u8)) -> Seq<u8>
    decreases pts.len(),
{
    if pts.len() == 0 {
        px
    } else {
        stamp_all(stamp(px, pts[0].0, pts[0].1, c), pts.drop_first(), c)
    }
}

/// Stamping two runs of points is stamping their concatenation.
pub proof fn lemma_stamp_all_concat(px: Seq<u8>, a: Seq<Point>, b: Seq<Point>, c: (u8, u8, u8))
    ensures
        stamp_all(px, a + b, c) == stamp_all(stamp_all(px, a, c), b, c),
    decreases a.len(),
{
    if a.len() > 0 {
        assert((a + b).drop_first() =~= a.drop_first() + b);
        assert((a + b)[0] == a[0]);
        lemma_stamp_all_concat(stamp(px, a[0].0, a[0].1, c), a.drop_first(), b, c);
    } else {
        assert(a + b =~= b);
    }
}

/// Shade one pixel.
fn shade_pixel(pixels: &mut [u8], x: i64, y: i64)
    requires
        old(pixels)@.len() >= 262144,
    ensures
        final(pixels)@ == shade(old(pixels)@, x as int, y as int),
{
    if x >= 0 && y >= 0 && x < 256 && y < 256 {
        let idx = ((y * 256 + x) * 4) as usize;
        if pixels[idx + 3] < 160 {
            pixels[idx] = 0;
            pixels[idx + 1] = 0;
            pixels[idx + 2] = 0;
            pixels[idx + 3] = 180;
        }
    }
}

/// Stamp one label pixel: shade its neighbours, then draw it.
fn stamp_pixel(pixels: &mut [u8], x: i64, y: i64, color: (u8, u8, u8))
    requires
        old(pixels)@.len() >= 262144,
        -0x1_0000_0000 <= x <= 0x1_0000_0000,
        -0x1_0000_0000 <= y <= 0x1_0000_0000,
    ensures
        final(pixels)@ == stamp(old(pixels)@, x as int, y as int, color),
        final(pixels)@.len() == old(pixels)@.len(),
{
    if !(x >= 0 && y >= 0 && x < 256 && y < 256) {
        return;
    }
    let mut dy: i64 = -1;
    let mut k: usize = 0;
    while dy <= 1
        invariant
            0 <= x < 256,
            0 <= y < 256,
            pixels@.len() == old(pixels)@.len(),
            old(pixels)@.len() >= 262144,
            -1 <= dy <= 2,
            k == 3 * (dy + 1) - (if dy > 0 { 1int } else { 0int }),
            shade_around(old(pixels)@, x as int, y as int, 0) == shade_around(
                pixels@,
                x as int,
                y as int,
                k as int,
            ),
        decreases 2 - dy,
    {
        let mut dx: i64 = -1;
        while dx <= 1
            invariant
                0 <= x < 256,
                0 <= y < 256,
                pixels@.len() == old(pixels)@.len(),
                old(pixels)@.len() >= 262144,
                -1 <= dy <= 1,
                -1 <= dx <= 2,
                k == 3 * (dy + 1) + (dx + 1) - (if dy > 0 || (dy == 0 && dx > 0) { 1int } else { 0int }),
                shade_around(old(pixels)@, x as int, y as int, 0) == shade_around(
                    pixels@,
                    x as int,
                    y as int,
                    k as int,
                ),
            decreases 2 - dx,
        {
            if dx != 0 || dy != 0 {
                proof {
                    assert(outline_offsets()[k as int] == (dx as int, dy as int));
                }
                shade_pixel(pixels, x + dx, y + dy);
                k += 1;
            }
            dx += 1;
        }
        dy += 1;
    }
    let idx = ((y * 256 + x) * 4) as usize;
    pixels[idx] = color.0;
    pixels[idx + 1] = color.1;
    pixels[idx + 2] = color.2;
    pixels[idx + 3] = 240;
}

/// Stamp the lit pixels of one glyph row.
fn stamp_row(pixels: &mut [u8], bits: u8, x: i64, y: i64, color: (u8, u8, u8))
    requires
        old(pixels)@.len() >= 262144,
        -0x8000_0000 <= x <= 0x8000_0000,
        -0x8000_0000 <= y <= 0x8000_0010,
    ensures
        final(pixels)@ == stamp_all(old(pixels)@, row5_points(bits, x as int, y as int, 0), color),
        final(pixels)@.len() == old(pixels)@.len(),
{
    let mut col: i64 = 0;
    while col < 5
        invariant
            0 <= col <= 5,
            pixels@.len() == old(pixels)@.len(),
            old(pixels)@.len() >= 262144,
            -0x8000_0000 <= x <= 0x8000_0000,
            -0x8000_0000 <= y <= 0x8000_0010,
            stamp_all(old(pixels)@, row5_points(bits, x as int, y as int, 0), color) == stamp_all(
                pixels@,
                row5_points(bits, x as int, y as int, col as int),
                color,
            ),
        decreases 5 - col,
    {
        let on = (bits >> ((4 - col) as u8)) & 1u8 == 1u8;
        let ghost head = if on { seq![(x + col, y as int)] } else { Seq::<Point>::empty() };
        proof {
            lemma_stamp_all_concat(pixels@, head, row5_points(bits, x as int, y as int, col + 1), color);
        }
        if on {
            stamp_pixel(pixels, x + col, y, color);
            proof {
                reveal_with_fuel(stamp_all, 2);
                assert(head.drop_first() =~= Seq::<Point>::empty());
            }
        }
        col += 1;
    }
}

/// Stamp the lit pixels of a glyph with its top-left corner at `(x, y)`.
fn stamp_glyph(pixels: &mut [u8], g: [u8; 7], x: i64, y: i64, color: (u8, u8, u8))
    requires
        old(pixels)@.len() >= 262144,
        -0x8000_0000 <= x <= 0x8000_0000,
        -0x8000_0000 <= y <= 0x8000_0000,
    ensures
        final(pixels)@ == stamp_all(old(pixels)@, glyph5_points(g, x as int, y as int, 0), color),
        final(pixels)@.len() == old(pixels)@.len(),
{
    let mut row: usize = 0;
    while row < 7
        invariant
            row <= 7,
            pixels@.len() == old(pixels)@.len(),
            old(pixels)@.len() >= 262144,
            -0x8000_0000 <= x <= 0x8000_0000,
            -0x8000_0000 <= y <= 0x8000_0000,
            stamp_all(old(pixels)@, glyph5_points(g, x as int, y as int, 0), color) == stamp_all(
                pixels@,
                glyph5_points(g, x as int, y as int, row as int),
                color,
            ),
        decreases 7 - row,
    {
        proof {
            lemma_stamp_all_concat(
                pixels@,
                row5_points(g[row as int], x as int, y + row, 0),
                glyph5_points(g, x as int, y as int, row + 1),
                color,
            );
        }
        stamp_row(pixels, g[row], x, y + row as i64, color);
        row += 1;
    }
}

/// Draw simple 5x7 bitmap text on a tile, roughly centred on `(x, y)`: it
/// starts three pixels left per byte of text and three pixels up, and each
/// lit pixel gets a dark outline.
pub fn draw_text(pixels: &mut [u8], x: i32, y: i32, text: &str, color: (u8, u8, u8))
    requires
        old(pixels)@.len() >= 262144,
        text.len() <= 0x0100_0000,
        i32::MIN <= x - 3 * text.len(),
        x - 3 * text.len() + 6 * text@.len() <= i32::MAX,
        i32::MIN <= y - 3,
        y + 4 <= i32::MAX,
    ensures
        final(pixels)@ == stamp_all(
            old(pixels)@,
            label_points(x - 3 * text.len(), y - 3, text@),
            color,
        ),
{
    let n: usize = text.len();
    let start_x: i64 = x as i64 - n as i64 * 3;
    let start_y: i64 = y as i64 - 3;
    let chars = chars_of(text);
    let mut ci: usize = 0;
    let mut ox: i64 = start_x;
    assert(text@.skip(0) == text@);
    while ci < chars.len()
        invariant
            ci <= chars.len(),
            chars@ == text@,
            ox == start_x + 6 * ci,
            start_x == x - 3 * text.len(),
            start_y == y - 3,
            i32::MIN <= start_x,
            start_x + 6 * text@.len() <= i32::MAX,
            i32::MIN <= y - 3,
            y + 4 <= i32::MAX,
            pixels@.len() == old(pixels)@.len(),
            old(pixels)@.len() >= 262144,
            stamp_all(old(pixels)@, label_points(start_x as int, start_y as int, text@), color)
                == stamp_all(
                pixels@,
                label_points(ox as int, start_y as int, text@.skip(ci as int)),
                color,
            ),
        decreases chars.len() - ci,
    {
        let ghost rest = text@.skip(ci as int);
        proof {
            assert(rest[0] == chars@[ci as int]);
            assert(rest.drop_first() == text@.skip(ci + 1));
            lemma_stamp_all_concat(
                pixels@,
                glyph5_points(contour_glyph(chars@[ci as int]), ox as int, start_y as int, 0),
                label_points(ox + 6, start_y as int, rest.drop_first()),
                color,
            );
        }
        let g = char_glyph(chars[ci]);
        stamp_glyph(pixels, g, ox, start_y, color);
        ox += 6;
        ci += 1;
    }
    proof {
        assert(text@.skip(chars.len() as int) =~= Seq::<char>::empty());
    }
}

/// The contour settings of a variable (matched in lower case): the
/// interval between contours in the field's unit, the line colour, and
/// the line width in tenths of a pixel.
pub open spec fn contour_settings_for(var: Seq<char>) -> (u32, (u8, u8, u8), u32) {
    let v = unicode_lower(var);
    if v == "height"@ || v == "hgt"@ {
        (60u32, (255u8, 255u8, 255u8), 20u32)
    } else if v == "mslp"@ {
        (4u32, (255u8, 255u8, 255u8), 20u32)
    } else if v == "temperature"@ || v == "temp"@ || v == "t"@ {
        (5u32, (255u8, 255u8, 255u8), 15u32)
    } else if v == "dewpoint"@ || v == "td"@ || v == "dew"@ {
        (5u32, (200u8, 200u8, 255u8), 15u32)
    } else if v == "reflectivity"@ || v == "refl"@ || v == "refc"@ || v == "refd"@ {
        (10u32, (100u8, 100u8, 100u8), 15u32)
    } else if v == "cape"@ {
        (500u32, (255u8, 255u8, 255u8), 15u32)
    } else if v == "cin"@ {
        (50u32, (255u8, 200u8, 200u8), 15u32)
    } else if v == "rh"@ || v == "relative_humidity"@ {
        (10u32, (200u8, 255u8, 200u8), 15u32)
    } else if v == "wind"@ || v == "wind_speed"@ || v == "wspd"@ {
        (10u32, (255u8, 255u8, 255u8), 15u32)
    } else if v == "gust"@ {
        (10u32, (255u8, 255u8, 255u8), 15u32)
    } else if v == "precip"@ || v == "precipitation"@ || v == "apcp"@ {
        (5u32, (200u8, 200u8, 255u8), 15u32)
    } else if v == "helicity"@ || v == "hlcy"@ || v == "srh"@ {
        (100u32, (255u8, 255u8, 255u8), 15u32)
    } else if v == "pressure"@ || v == "pres"@ {
        (4u32, (255u8, 255u8, 255u8), 20u32)
    } else if v == "pwat"@ || v == "precipitable_water"@ {
        (10u32, (200u8, 200u8, 255u8), 15u32)
    } else if v == "vis"@ || v == "visibility"@ {
        (1000u32, (255u8, 255u8, 200u8), 15u32)
    } else {
        (10u32, (255u8, 255u8, 255u8), 15u32)
    }
}

/// The contour settings of a variable (see `contour_settings_for`).
pub fn default_contour_settings(var: &str) -> (r: (u32, (u8, u8, u8), u32))
    ensures
        r == contour_settings_for(var@),
{
    let lowered = to_lower(var);
    let s = lowered.as_str();
    if str_eq(s, "height") || str_eq(s, "hgt") {
        (60, (255, 255, 255), 20)
    } else if str_eq(s, "mslp") {
        (4, (255, 255, 255), 20)
    } else if str_eq(s, "temperature") || str_eq(s, "temp") || str_eq(s, "t") {
        (5, (255, 255, 255), 15)
    } else if str_eq(s, "dewpoint") || str_eq(s, "td") || str_eq(s, "dew") {
        (5, (200, 200, 255), 15)
    } else if str_eq(s, "reflectivity") || str_eq(s, "refl") || str_eq(s, "refc") || str_eq(s, "refd") {
        (10, (100, 100, 100), 15)
    } else if str_eq(s, "cape") {
        (500, (255, 255, 255), 15)
    } else if str_eq(s, "cin") {
        (50, (255, 200, 200), 15)
    } else if str_eq(s, "rh") || str_eq(s, "relative_humidity") {
        (10, (200, 255, 200), 15)
    } else if str_eq(s, "wind") || str_eq(s, "wind_speed") || str_eq(s, "wspd") {
        (10, (255, 255, 255), 15)
    } else if str_eq(s, "gust") {
        (10, (255, 255, 255), 15)
    } else if str_eq(s, "precip") || str_eq(s, "precipitation") || str_eq(s, "apcp") {
        (5, (200, 200, 255), 15)
    } else if str_eq(s, "helicity") || str_eq(s, "hlcy") || str_eq(s, "srh") {
        (100, (255, 255, 255), 15)
    } else if str_eq(s, "pressure") || str_eq(s, "pres") {
        (4, (255, 255, 255), 20)
    } else if str_eq(s, "pwat") || str_eq(s, "precipitable_water") {
        (10, (200, 200, 255), 15)
    } else if str_eq(s, "vis") || str_eq(s, "visibility") {
        (1000, (255, 255, 200), 15)
    } else {
        (10, (255, 255, 255), 15)
    }
}

} // verus!
