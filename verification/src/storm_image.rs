//! Storm-image overlays: the label font, plain pixel writes, bitmap text
//! and the cell crosshair drawn on square RGBA images.
use vstd::prelude::*;
use crate::contours::{glyph5_points, row5_points};
use crate::raster::Point;
use crate::text::chars_of;

verus! {

/// The glyph of `ch` in the storm-image font; a question mark for characters
/// it lacks.
pub open spec fn storm_glyph(ch: char) -> [u8; 7] {
    match ch {
        '0' => [0b01110, 0b10001, 0b10011, 0b10101, 0b11001, 0b10001, 0b01110],
        '1' => [0b00100, 0b01100, 0b00100, 0b00100, 0b00100, 0b00100, 0b01110],
        '2' => [0b01110, 0b10001, 0b00001, 0b00110, 0b01000, 0b10000, 0b11111],
        '3' => [0b01110, 0b10001, 0b00001, 0b00110, 0b00001, 0b10001, 0b01110],
        '4' => [0b00010, 0b00110, 0b01010, 0b10010, 0b11111, 0b00010, 0b00010],
        '5' => [0b11111, 0b10000, 0b11110, 0b00001, 0b00001, 0b10001, 0b01110],
        '6' => [0b00110, 0b01000, 0b10000, 0b11110, 0b10001, 0b10001, 0b01110],
        '7' => [0b11111, 0b00001, 0b00010, 0b00100, 0b01000, 0b01000, 0b01000],
        '8' => [0b01110, 0b10001, 0b10001, 0b01110, 0b10001, 0b10001, 0b01110],
        '9' => [0b01110, 0b10001, 0b10001, 0b01111, 0b00001, 0b00010, 0b01100],
        'C' => [0b01110, 0b10001, 0b10000, 0b10000, 0b10000, 0b10001, 0b01110],
        'M' => [0b10001, 0b11011, 0b10101, 0b10101, 0b10001, 0b10001, 0b10001],
        'm' => [0b00000, 0b00000, 0b11010, 0b10101, 0b10101, 0b10001, 0b10001],
        '/' => [0b00001, 0b00010, 0b00010, 0b00100, 0b01000, 0b01000, 0b10000],
        's' => [0b00000, 0b00000, 0b01110, 0b10000, 0b01110, 0b00001, 0b11110],
        '.' => [0b00000, 0b00000, 0b00000, 0b00000, 0b00000, 0b01100, 0b01100],
        '-' => [0b00000, 0b00000, 0b00000, 0b11111, 0b00000, 0b00000, 0b00000],
        ' ' => [0b00000, 0b00000, 0b00000, 0b00000, 0b00000, 0b00000, 0b00000],
        ':' => [0b00000, 0b01100, 0b01100, 0b00000, 0b01100, 0b01100, 0b00000],
        'A' => [0b01110, 0b10001, 0b10001, 0b11111, 0b10001, 0b10001, 0b10001],
        'B' => [0b11110, 0b10001, 0b10001, 0b11110, 0b10001, 0b10001, 0b11110],
        'D' => [0b11100, 0b10010, 0b10001, 0b10001, 0b10001, 0b10010, 0b11100],
        'E' => [0b11111, 0b10000, 0b10000, 0b11110, 0b10000, 0b10000, 0b11111],
        'F' => [0b11111, 0b10000, 0b10000, 0b11110, 0b10000, 0b10000, 0b10000],
        'G' => [0b01110, 0b10001, 0b10000, 0b10111, 0b10001, 0b10001, 0b01110],
        'H' => [0b10001, 0b10001, 0b10001, 0b11111, 0b10001, 0b10001, 0b10001],
        'I' => [0b01110, 0b00100, 0b00100, 0b00100, 0b00100, 0b00100, 0b01110],
        'K' => [0b10001, 0b10010, 0b10100, 0b11000, 0b10100, 0b10010, 0b10001],
        'L' => [0b10000, 0b10000, 0b10000, 0b10000, 0b10000, 0b10000, 0b11111],
        'N' => [0b10001, 0b11001, 0b10101, 0b10101, 0b10011, 0b10001, 0b10001],
        'O' => [0b01110, 0b10001, 0b10001, 0b10001, 0b10001, 0b10001, 0b01110],
        'P' => [0b11110, 0b10001, 0b10001, 0b11110, 0b10000, 0b10000, 0b10000],
        'R' => [0b11110, 0b10001, 0b10001, 0b11110, 0b10100, 0b10010, 0b10001],
        'S' => [0b01110, 0b10001, 0b10000, 0b01110, 0b00001, 0b10001, 0b01110],
        'T' => [0b11111, 0b00100, 0b00100, 0b00100, 0b00100, 0b00100, 0b00100],
        'U' => [0b10001, 0b10001, 0b10001, 0b10001, 0b10001, 0b10001, 0b01110],
        'W' => [0b10001, 0b10001, 0b10001, 0b10101, 0b10101, 0b11011, 0b10001],
        'X' => [0b10001, 0b10001, 0b01010, 0b00100, 0b01010, 0b10001, 0b10001],
        'Z' => [0b11111, 0b00001, 0b00010, 0b00100, 0b01000, 0b10000, 0b11111],
        'a' => [0b00000, 0b00000, 0b01110, 0b00001, 0b01111, 0b10001, 0b01111],
        'c' => [0b00000, 0b00000, 0b01110, 0b10000, 0b10000, 0b10001, 0b01110],
        'e' => [0b00000, 0b00000, 0b01110, 0b10001, 0b11111, 0b10000, 0b01110],
        'i' => [0b00100, 0b00000, 0b01100, 0b00100, 0b00100, 0b00100, 0b01110],
        'l' => [0b01100, 0b00100, 0b00100, 0b00100, 0b00100, 0b00100, 0b01110],
        'n' => [0b00000, 0b00000, 0b10110, 0b11001, 0b10001, 0b10001, 0b10001],
        'o' => [0b00000, 0b00000, 0b01110, 0b10001, 0b10001, 0b10001, 0b01110],
        'r' => [0b00000, 0b00000, 0b10110, 0b11001, 0b10000, 0b10000, 0b10000],
        't' => [0b01000, 0b01000, 0b11100, 0b01000, 0b01000, 0b01001, 0b00110],
        'u' => [0b00000, 0b00000, 0b10001, 0b10001, 0b10001, 0b10011, 0b01101],
        'w' => [0b00000, 0b00000, 0b10001, 0b10001, 0b10101, 0b10101, 0b01010],
        'y' => [0b00000, 0b00000, 0b10001, 0b10001, 0b01111, 0b00001, 0b01110],
        _ => [0b01110, 0b01010, 0b01010, 0b01010, 0b01010, 0b00000, 0b01010],
    }
}

/// The glyph of `ch` in the storm-image font.
pub fn get_glyph(ch: char) -> (g: [u8; 7])
    ensures
        g == storm_glyph(ch),
{
    match ch {
        '0' => [0b01110, 0b10001, 0b10011, 0b10101, 0b11001, 0b10001, 0b01110],
        '1' => [0b00100, 0b01100, 0b00100, 0b00100, 0b00100, 0b00100, 0b01110],
        '2' => [0b01110, 0b10001, 0b00001, 0b00110, 0b01000, 0b10000, 0b11111],
        '3' => [0b01110, 0b10001, 0b00001, 0b00110, 0b00001, 0b10001, 0b01110],
        '4' => [0b00010, 0b00110, 0b01010, 0b10010, 0b11111, 0b00010, 0b00010],
        '5' => [0b11111, 0b10000, 0b11110, 0b00001, 0b00001, 0b10001, 0b01110],
        '6' => [0b00110, 0b01000, 0b10000, 0b11110, 0b10001, 0b10001, 0b01110],
        '7' => [0b11111, 0b00001, 0b00010, 0b00100, 0b01000, 0b01000, 0b01000],
        '8' => [0b01110, 0b10001, 0b10001, 0b01110, 0b10001, 0b10001, 0b01110],
        '9' => [0b01110, 0b10001, 0b10001, 0b01111, 0b00001, 0b00010, 0b01100],
        'C' => [0b01110, 0b10001, 0b10000, 0b10000, 0b10000, 0b10001, 0b01110],
        'M' => [0b10001, 0b11011, 0b10101, 0b10101, 0b10001, 0b10001, 0b10001],
        'm' => [0b00000, 0b00000, 0b11010, 0b10101, 0b10101, 0b10001, 0b10001],
        '/' => [0b00001, 0b00010, 0b00010, 0b00100, 0b01000, 0b01000, 0b10000],
        's' => [0b00000, 0b00000, 0b01110, 0b10000, 0b01110, 0b00001, 0b11110],
        '.' => [0b00000, 0b00000, 0b00000, 0b00000, 0b00000, 0b01100, 0b01100],
        '-' => [0b00000, 0b00000, 0b00000, 0b11111, 0b00000, 0b00000, 0b00000],
        ' ' => [0b00000, 0b00000, 0b00000, 0b00000, 0b00000, 0b00000, 0b00000],
        ':' => [0b00000, 0b01100, 0b01100, 0b00000, 0b01100, 0b01100, 0b00000],
        'A' => [0b01110, 0b10001, 0b10001, 0b11111, 0b10001, 0b10001, 0b10001],
        'B' => [0b11110, 0b10001, 0b10001, 0b11110, 0b10001, 0b10001, 0b11110],
        'D' => [0b11100, 0b10010, 0b10001, 0b10001, 0b10001, 0b10010, 0b11100],
        'E' => [0b11111, 0b10000, 0b10000, 0b11110, 0b10000, 0b10000, 0b11111],
        'F' => [0b11111, 0b10000, 0b10000, 0b11110, 0b10000, 0b10000, 0b10000],
        'G' => [0b01110, 0b10001, 0b10000, 0b10111, 0b10001, 0b10001, 0b01110],
        'H' => [0b10001, 0b10001, 0b10001, 0b11111, 0b10001, 0b10001, 0b10001],
        'I' => [0b01110, 0b00100, 0b00100, 0b00100, 0b00100, 0b00100, 0b01110],
        'K' => [0b10001, 0b10010, 0b10100, 0b11000, 0b10100, 0b10010, 0b10001],
        'L' => [0b10000, 0b10000, 0b10000, 0b10000, 0b10000, 0b10000, 0b11111],
        'N' => [0b10001, 0b11001, 0b10101, 0b10101, 0b10011, 0b10001, 0b10001],
        'O' => [0b01110, 0b10001, 0b10001, 0b10001, 0b10001, 0b10001, 0b01110],
        'P' => [0b11110, 0b10001, 0b10001, 0b11110, 0b10000, 0b10000, 0b10000],
        'R' => [0b11110, 0b10001, 0b10001, 0b11110, 0b10100, 0b10010, 0b10001],
        'S' => [0b01110, 0b10001, 0b10000, 0b01110, 0b00001, 0b10001, 0b01110],
        'T' => [0b11111, 0b00100, 0b00100, 0b00100, 0b00100, 0b00100, 0b00100],
        'U' => [0b10001, 0b10001, 0b10001, 0b10001, 0b10001, 0b10001, 0b01110],
        'W' => [0b10001, 0b10001, 0b10001, 0b10101, 0b10101, 0b11011, 0b10001],
        'X' => [0b10001, 0b10001, 0b01010, 0b00100, 0b01010, 0b10001, 0b10001],
        'Z' => [0b11111, 0b00001, 0b00010, 0b00100, 0b01000, 0b10000, 0b11111],
        'a' => [0b00000, 0b00000, 0b01110, 0b00001, 0b01111, 0b10001, 0b01111],
        'c' => [0b00000, 0b00000, 0b01110, 0b10000, 0b10000, 0b10001, 0b01110],
        'e' => [0b00000, 0b00000, 0b01110, 0b10001, 0b11111, 0b10000, 0b01110],
        'i' => [0b00100, 0b00000, 0b01100, 0b00100, 0b00100, 0b00100, 0b01110],
        'l' => [0b01100, 0b00100, 0b00100, 0b00100, 0b00100, 0b00100, 0b01110],
        'n' => [0b00000, 0b00000, 0b10110, 0b11001, 0b10001, 0b10001, 0b10001],
        'o' => [0b00000, 0b00000, 0b01110, 0b10001, 0b10001, 0b10001, 0b01110],
        'r' => [0b00000, 0b00000, 0b10110, 0b11001, 0b10000, 0b10000, 0b10000],
        't' => [0b01000, 0b01000, 0b11100, 0b01000, 0b01000, 0b01001, 0b00110],
        'u' => [0b00000, 0b00000, 0b10001, 0b10001, 0b10001, 0b10011, 0b01101],
        'w' => [0b00000, 0b00000, 0b10001, 0b10001, 0b10101, 0b10101, 0b01010],
        'y' => [0b00000, 0b00000, 0b10001, 0b10001, 0b01111, 0b00001, 0b01110],
        _ => [0b01110, 0b01010, 0b01010, 0b01010, 0b01010, 0b00000, 0b01010],
    }
}

/// The image after writing `c` at `(x, y)` of an image `size` pixels wide,
/// unless the pixel lies past the end of the buffer.
pub open spec fn put(px: Seq<u8>, size: int, x: int, y: int, c: [u8; 4]) -> Seq<u8> {
    let i = (y * size + x) * 4;
    if i + 3 >= px.len() {
        px
    } else {
        px.update(i, c[0]).update(i + 1, c[1]).update(i + 2, c[2]).update(i + 3, c[3])
    }
}

/// Write one pixel (no blending).
pub fn set_pixel(pixels: &mut [u8], img_size: usize, x: usize, y: usize, color: [u8; 4])
    requires
        (y * img_size + x) * 4 + 3 <= usize::MAX,
    ensures
        final(pixels)@ == put(old(pixels)@, img_size as int, x as int, y as int, color),
{
    let idx = (y * img_size + x) * 4;
    if idx + 3 >= pixels.len() {
        return;
    }
    pixels[idx] = color[0];
    pixels[idx + 1] = color[1];
    pixels[idx + 2] = color[2];
    pixels[idx + 3] = color[3];
}

/// The image after writing `c` at `(x, y)` when that lies inside an image
/// `width` by `height` pixels.
pub open spec fn put_inside(px: Seq<u8>, width: int, height: int, x: int, y: int, c: [u8; 4]) -> Seq<u8> {
    if 0 <= x < width && 0 <= y < height {
        put(px, width, x, y, c)
    } else {
        px
    }
}

/// The image after writing `c` at each of `pts` that lies inside it.
pub open spec fn put_all(px: Seq<u8>, width: int, height: int, pts: Seq<Point>, c: [u8; 4]) -> Seq<u8>
    decreases pts.len(),
{
    if pts.len() == 0 {
        px
    } else {
        put_all(put_inside(px, width, height, pts[0].0, pts[0].1, c), width, height, pts.drop_first(), c)
    }
}

/// Writing two runs of points is writing their concatenation.
pub proof fn lemma_put_all_concat(
    px: Seq<u8>,
    width: int,
    height: int,
    a: Seq<Point>,
    b: Seq<Point>,
    c: [u8; 4],
)
    ensures
        put_all(px, width, height, a + b, c) == put_all(put_all(px, width, height, a, c), width, height, b, c),
    decreases a.len(),
{
    if a.len() > 0 {
        assert((a + b).drop_first() =~= a.drop_first() + b);
        assert((a + b)[0] == a[0]);
        lemma_put_all_concat(
            put_inside(px, width, height, a[0].0, a[0].1, c),
            width,
            height,
            a.drop_first(),
            b,
            c,
        );
    } else {
        assert(a + b =~= b);
    }
}

/// Writing pixels never changes the length of the buffer.
pub proof fn lemma_put_all_len(px: Seq<u8>, width: int, height: int, pts: Seq<Point>, c: [u8; 4])
    ensures
        put_all(px, width, height, pts, c).len() == px.len(),
    decreases pts.len(),
{
    if pts.len() > 0 {
        lemma_put_all_len(put_inside(px, width, height, pts[0].0, pts[0].1, c), width, height, pts.drop_first(), c);
    }
}

/// Write `c` at `(x, y)` if it lies inside the image.
pub(crate) fn put_checked(pixels: &mut [u8], width: usize, height: usize, x: i128, y: i128, color: [u8; 4])
    requires
        width * height * 4 <= usize::MAX,
    ensures
        final(pixels)@ == put_inside(old(pixels)@, width as int, height as int, x as int, y as int, color),
{
    if x >= 0 && y >= 0 && x < width as i128 && y < height as i128 {
        let xx = x as usize;
        let yy = y as usize;
        proof {
            assert((yy * width + xx) * 4 + 3 <= width * height * 4) by (nonlinear_arith)
                requires
                    yy < height,
                    xx < width,
            ;
        }
        set_pixel(pixels, width, xx, yy, color);
    }
}

/// Pixels of `text` in the storm-image font from `(x, y)`, each character
/// six pixels right of the last.
pub open spec fn storm_text_points(x: int, y: int, text: Seq<char>) -> Seq<Point>
    decreases text.len(),
{
    if text.len() == 0 {
        Seq::empty()
    } else {
        glyph5_points(storm_glyph(text[0]), x, y, 0) + storm_text_points(x + 6, y, text.drop_first())
    }
}

/// Write the lit pixels of one glyph row.
pub(crate) fn put_row(pixels: &mut [u8], width: usize, height: usize, bits: u8, x: i128, y: i128, c: [u8; 4])
    requires
        width * height * 4 <= usize::MAX,
        -0x1_0000_0000_0000_0000 <= x <= 0x1_0000_0000_0000_0000,
    ensures
        final(pixels)@ == put_all(old(pixels)@, width as int, height as int, row5_points(bits, x as int, y as int, 0), c),
{
    let mut col: i128 = 0;
    while col < 5
        invariant
            0 <= col <= 5,
            width * height * 4 <= usize::MAX,
            -0x1_0000_0000_0000_0000 <= x <= 0x1_0000_0000_0000_0000,
            put_all(old(pixels)@, width as int, height as int, row5_points(bits, x as int, y as int, 0), c)
                == put_all(pixels@, width as int, height as int, row5_points(bits, x as int, y as int, col as int), c),
        decreases 5 - col,
    {
        let on = (bits >> ((4 - col) as u8)) & 1u8 == 1u8;
        let ghost head = if on { seq![(x + col, y as int)] } else { Seq::<Point>::empty() };
        proof {
            lemma_put_all_concat(pixels@, width as int, height as int, head, row5_points(bits, x as int, y as int, col + 1), c);
        }
        if on {
            put_checked(pixels, width, height, x + col, y, c);
            proof {
                reveal_with_fuel(put_all, 2);
                assert(head.drop_first() =~= Seq::<Point>::empty());
            }
        }
        col += 1;
    }
}

/// Write the lit pixels of a glyph with its top-left corner at `(x, y)`.
pub(crate) fn put_glyph(pixels: &mut [u8], width: usize, height: usize, g: [u8; 7], x: i128, y: i128, c: [u8; 4])
    requires
        width * height * 4 <= usize::MAX,
        -0x1_0000_0000_0000_0000 <= x <= 0x1_0000_0000_0000_0000,
        -0x1_0000_0000_0000_0000 <= y <= 0x1_0000_0000_0000_0000,
    ensures
        final(pixels)@ == put_all(old(pixels)@, width as int, height as int, glyph5_points(g, x as int, y as int, 0), c),
{
    let mut row: usize = 0;
    while row < 7
        invariant
            row <= 7,
            width * height * 4 <= usize::MAX,
            -0x1_0000_0000_0000_0000 <= x <= 0x1_0000_0000_0000_0000,
            -0x1_0000_0000_0000_0000 <= y <= 0x1_0000_0000_0000_0000,
            put_all(old(pixels)@, width as int, height as int, glyph5_points(g, x as int, y as int, 0), c)
                == put_all(pixels@, width as int, height as int, glyph5_points(g, x as int, y as int, row as int), c),
        decreases 7 - row,
    {
        proof {
            lemma_put_all_concat(
                pixels@,
                width as int,
                height as int,
                row5_points(g[row as int], x as int, y + row, 0),
                glyph5_points(g, x as int, y as int, row + 1),
                c,
            );
        }
        put_row(pixels, width, height, g[row], x, y + row as i128, c);
        row += 1;
    }
}

/// Draw text in the storm-image font, opaque, each character six pixels
/// right of the last; pixels outside the image are skipped.
pub fn draw_text(pixels: &mut [u8], img_size: usize, x: i32, y: i32, text: &str, color: (u8, u8, u8))
    requires
        img_size * img_size * 4 <= usize::MAX,
        x + 6 * text@.len() <= i32::MAX,
    ensures
        final(pixels)@ == put_all(
            old(pixels)@,
            img_size as int,
            img_size as int,
            storm_text_points(x as int, y as int, text@),
            [color.0, color.1, color.2, 255],
        ),
{
    let c: [u8; 4] = [color.0, color.1, color.2, 255];
    let chars = chars_of(text);
    let mut i: usize = 0;
    let mut cx: i64 = x as i64;
    assert(text@.skip(0) == text@);
    while i < chars.len()
        invariant
            i <= chars.len(),
            chars@ == text@,
            cx == x + 6 * i,
            x + 6 * text@.len() <= i32::MAX,
            img_size * img_size * 4 <= usize::MAX,
            c == [color.0, color.1, color.2, 255u8],
            put_all(old(pixels)@, img_size as int, img_size as int, storm_text_points(x as int, y as int, text@), c)
                == put_all(pixels@, img_size as int, img_size as int, storm_text_points(cx as int, y as int, text@.skip(i as int)), c),
        decreases chars.len() - i,
    {
        let ghost rest = text@.skip(i as int);
        proof {
            assert(rest[0] == chars@[i as int]);
            assert(rest.drop_first() == text@.skip(i + 1));
            lemma_put_all_concat(
                pixels@,
                img_size as int,
                img_size as int,
                glyph5_points(storm_glyph(chars@[i as int]), cx as int, y as int, 0),
                storm_text_points(cx + 6, y as int, rest.drop_first()),
                c,
            );
        }
        let g = get_glyph(chars[i]);
        put_glyph(pixels, img_size, img_size, g, cx as i128, y as i128, c);
        cx += 6;
        i += 1;
    }
    proof {
        assert(text@.skip(chars.len() as int) =~= Seq::<char>::empty());
    }
}

/// Pixels of the cell crosshair at `(cx, cy)`: for each offset `d` from -4
/// to 4, the point `d` to the right, then the point `d` below.
pub open spec fn crosshair_points(cx: int, cy: int, d: int) -> Seq<Point>
    decreases 5 - d,
{
    if d < -4 || d > 4 {
        Seq::empty()
    } else {
        seq![(cx + d, cy), (cx, cy + d)] + crosshair_points(cx, cy, d + 1)
    }
}

/// Draw the cyan crosshair that marks a storm cell.
pub fn draw_cell_marker(pixels: &mut [u8], img_size: usize, cx: i32, cy: i32)
    requires
        img_size * img_size * 4 <= usize::MAX,
        i32::MIN + 4 <= cx <= i32::MAX - 4,
        i32::MIN + 4 <= cy <= i32::MAX - 4,
    ensures
        final(pixels)@ == put_all(
            old(pixels)@,
            img_size as int,
            img_size as int,
            crosshair_points(cx as int, cy as int, -4),
            [0, 255, 255, 255],
        ),
{
    let color: [u8; 4] = [0, 255, 255, 255];
    let mut d: i32 = -4;
    while d <= 4
        invariant
            -4 <= d <= 5,
            img_size * img_size * 4 <= usize::MAX,
            i32::MIN + 4 <= cx <= i32::MAX - 4,
            i32::MIN + 4 <= cy <= i32::MAX - 4,
            color == [0u8, 255u8, 255u8, 255u8],
            put_all(old(pixels)@, img_size as int, img_size as int, crosshair_points(cx as int, cy as int, -4), color)
                == put_all(pixels@, img_size as int, img_size as int, crosshair_points(cx as int, cy as int, d as int), color),
        decreases 5 - d,
    {
        let ghost pair = seq![(cx + d, cy as int), (cx as int, cy + d)];
        proof {
            lemma_put_all_concat(pixels@, img_size as int, img_size as int, pair, crosshair_points(cx as int, cy as int, d + 1), color);
            reveal_with_fuel(put_all, 3);
            assert(pair.drop_first().drop_first() =~= Seq::<Point>::empty());
        }
        put_checked(pixels, img_size, img_size, cx as i128 + d as i128, cy as i128, color);
        put_checked(pixels, img_size, img_size, cx as i128, cy as i128 + d as i128, color);
        d += 1;
    }
}

} // verus!
