//! RGBA drawing primitives for station-model tiles: alpha-blended pixels,
//! Bresenham lines, midpoint and filled circles, sky-cover symbols and a
//! 5x7 bitmap font.
use vstd::prelude::*;

verus! {

/// Height of a tile in pixels; rows at or below it are never drawn.
pub const TILE_SIZE: usize = 256;

/// An RGBA color.
pub type Color = [u8; 4];

/// One colour channel of `src` laid over `dst` with opacity `alpha` (out of 255).
pub open spec fn blend_channel(src: u8, dst: u8, alpha: int) -> u8 {
    ((src * alpha + dst * (255 - alpha)) / 255) as u8
}

/// Opacity of the result of laying opacity `alpha` over opacity `dst`.
pub open spec fn blend_opacity(dst: u8, alpha: int) -> u8 {
    let v = dst + alpha - dst * alpha / 255;
    if v > 255 {
        255
    } else {
        v as u8
    }
}

/// Byte offset of pixel `(x, y)` in a buffer `width` pixels wide.
pub open spec fn pixel_offset(width: int, x: int, y: int) -> int {
    (y * width + x) * 4
}

/// The buffer after drawing `c` at `(x, y)`: nothing happens outside the
/// tile or past the end of the buffer; an opaque color replaces the pixel,
/// a translucent one is blended over it, a transparent one changes nothing.
pub open spec fn paint(px: Seq<u8>, width: int, x: int, y: int, c: Color) -> Seq<u8> {
    let i = pixel_offset(width, x, y);
    let a = c[3] as int;
    if x < 0 || y < 0 || x >= width || y >= TILE_SIZE || i + 3 >= px.len() {
        px
    } else if a == 255 {
        px.update(i, c[0]).update(i + 1, c[1]).update(i + 2, c[2]).update(i + 3, 255)
    } else if a > 0 {
        px.update(i, blend_channel(c[0], px[i], a)).update(
            i + 1,
            blend_channel(c[1], px[i + 1], a),
        ).update(i + 2, blend_channel(c[2], px[i + 2], a)).update(
            i + 3,
            blend_opacity(px[i + 3], a),
        )
    } else {
        px
    }
}

/// Blending stays within a byte.
proof fn lemma_blend_bounds(src: u8, dst: u8, alpha: int)
    requires
        0 < alpha < 255,
    ensures
        0 <= src * alpha + dst * (255 - alpha) <= 255 * 255,
        (src * alpha + dst * (255 - alpha)) / 255 <= 255,
{
    assert(0 <= src * alpha + dst * (255 - alpha) <= 255 * 255) by (nonlinear_arith)
        requires
            0 < alpha < 255,
            src <= 255,
            dst <= 255,
    ;
}

/// Set a single pixel with alpha blending.
pub fn set_pixel(pixels: &mut [u8], width: usize, x: i32, y: i32, color: Color)
    requires
        width <= usize::MAX / 1024,
    ensures
        final(pixels)@ == paint(old(pixels)@, width as int, x as int, y as int, color),
{
    plot(pixels, width, x as i64, y as i64, color);
}

/// Draw `color` at `(x, y)` with alpha blending.
pub(crate) fn plot(pixels: &mut [u8], width: usize, x: i64, y: i64, color: Color)
    requires
        width <= usize::MAX / 1024,
    ensures
        final(pixels)@ == paint(old(pixels)@, width as int, x as int, y as int, color),
{
    if x < 0 || y < 0 || x as u64 >= width as u64 || y >= TILE_SIZE as i64 {
        return;
    }
    let yy = y as usize;
    let xx = x as usize;
    proof {
        assert(yy * width + xx < 256 * width) by (nonlinear_arith)
            requires
                yy < 256,
                xx < width,
        ;
    }
    let idx = (yy * width + xx) * 4;
    if idx + 3 >= pixels.len() {
        return;
    }
    let alpha = color[3] as u16;
    if alpha == 255 {
        pixels[idx] = color[0];
        pixels[idx + 1] = color[1];
        pixels[idx + 2] = color[2];
        pixels[idx + 3] = 255;
    } else if alpha > 0 {
        let inv = 255 - alpha;
        proof {
            lemma_blend_bounds(color[0], pixels[idx as int], alpha as int);
            lemma_blend_bounds(color[1], pixels[idx + 1], alpha as int);
            lemma_blend_bounds(color[2], pixels[idx + 2], alpha as int);
            assert(pixels[idx + 3] as int * alpha <= 255 * 255 && pixels[idx + 3] as int * alpha
                / 255 <= pixels[idx + 3] as int) by (nonlinear_arith)
                requires
                    pixels[idx + 3] <= 255,
                    alpha <= 255,
            ;
        }
        pixels[idx] = ((color[0] as u16 * alpha + pixels[idx] as u16 * inv) / 255) as u8;
        pixels[idx + 1] = ((color[1] as u16 * alpha + pixels[idx + 1] as u16 * inv) / 255) as u8;
        pixels[idx + 2] = ((color[2] as u16 * alpha + pixels[idx + 2] as u16 * inv) / 255) as u8;
        let o = pixels[idx + 3] as u16 + alpha - (pixels[idx + 3] as u16 * alpha / 255);
        pixels[idx + 3] = if o > 255 { 255 } else { o as u8 };
    }
}

} // verus!

verus! {

/// A pixel position.
pub type Point = (int, int);

/// The buffer after drawing `c` at each of `pts`, in order.
pub open spec fn paint_all(px: Seq<u8>, width: int, pts: Seq<Point>, c: Color) -> Seq<u8>
    decreases pts.len(),
{
    if pts.len() == 0 {
        px
    } else {
        paint_all(paint(px, width, pts[0].0, pts[0].1, c), width, pts.drop_first(), c)
    }
}

/// Drawing two runs of points is drawing their concatenation.
pub proof fn lemma_paint_all_concat(px: Seq<u8>, width: int, a: Seq<Point>, b: Seq<Point>, c: Color)
    ensures
        paint_all(px, width, a + b, c) == paint_all(paint_all(px, width, a, c), width, b, c),
    decreases a.len(),
{
    if a.len() > 0 {
        assert((a + b).drop_first() =~= a.drop_first() + b);
        assert((a + b)[0] == a[0]);
        lemma_paint_all_concat(paint(px, width, a[0].0, a[0].1, c), width, a.drop_first(), b, c);
    } else {
        assert(a + b =~= b);
    }
}

/// Drawing no points leaves the buffer unchanged; drawing changes no length.
pub proof fn lemma_paint_all_len(px: Seq<u8>, width: int, pts: Seq<Point>, c: Color)
    ensures
        paint_all(px, width, pts, c).len() == px.len(),
    decreases pts.len(),
{
    if pts.len() > 0 {
        lemma_paint_all_len(paint(px, width, pts[0].0, pts[0].1, c), width, pts.drop_first(), c);
    }
}

/// `|v|`.
pub open spec fn abs(v: int) -> int {
    if v < 0 {
        -v
    } else {
        v
    }
}

/// Stepping `v` by `s` moves it toward `target` (or it is already there).
pub open spec fn toward(v: int, target: int, s: int) -> bool {
    (s == 1 && v <= target) || (s == -1 && v >= target)
}

/// The pixels visited by Bresenham's algorithm from `(x, y)` with error term
/// `err` to `(x1, y1)`, stopping early rather than stepping past `x1` or `y1`.
pub open spec fn line_walk(
    x: int,
    y: int,
    err: int,
    x1: int,
    y1: int,
    dx: int,
    dy: int,
    sx: int,
    sy: int,
) -> Seq<Point>
    decreases abs(x1 - x) + abs(y1 - y),
{
    if !(toward(x, x1, sx) && toward(y, y1, sy) && dx >= 0 && dy <= 0) {
        Seq::empty()
    } else if x == x1 && y == y1 {
        seq![(x, y)]
    } else {
        let e2 = 2 * err;
        if e2 >= dy && x == x1 {
            seq![(x, y)]
        } else {
            let x2 = if e2 >= dy { x + sx } else { x };
            let err2 = if e2 >= dy { err + dy } else { err };
            if e2 <= dx && y == y1 {
                seq![(x, y)]
            } else {
                let y3 = if e2 <= dx { y + sy } else { y };
                let err3 = if e2 <= dx { err2 + dx } else { err2 };
                seq![(x, y)] + line_walk(x2, y3, err3, x1, y1, dx, dy, sx, sy)
            }
        }
    }
}

/// The pixels of the line from `(x0, y0)` to `(x1, y1)`.
pub open spec fn line_points(x0: int, y0: int, x1: int, y1: int) -> Seq<Point> {
    let dx = abs(x1 - x0);
    let dy = -abs(y1 - y0);
    let sx = if x0 < x1 { 1int } else { -1int };
    let sy = if y0 < y1 { 1int } else { -1int };
    line_walk(x0, y0, dx + dy, x1, y1, dx, dy, sx, sy)
}

/// Draw a line using Bresenham's algorithm.
pub fn draw_line(pixels: &mut [u8], width: usize, x0: i32, y0: i32, x1: i32, y1: i32, color: Color)
    requires
        width <= usize::MAX / 1024,
    ensures
        final(pixels)@ == paint_all(
            old(pixels)@,
            width as int,
            line_points(x0 as int, y0 as int, x1 as int, y1 as int),
            color,
        ),
{
    let dx: i64 = if x1 as i64 >= x0 as i64 { x1 as i64 - x0 as i64 } else { x0 as i64 - x1 as i64 };
    let dy: i64 = if y1 as i64 >= y0 as i64 { y0 as i64 - y1 as i64 } else { y1 as i64 - y0 as i64 };
    let sx: i32 = if x0 < x1 { 1 } else { -1 };
    let sy: i32 = if y0 < y1 { 1 } else { -1 };
    let mut err: i64 = dx + dy;
    let mut x = x0;
    let mut y = y0;
    let ghost total = line_points(x0 as int, y0 as int, x1 as int, y1 as int);
    proof {
        assert(3 * dy <= 2 * err <= 3 * dx);
    }
    loop
        invariant_except_break
            paint_all(old(pixels)@, width as int, total, color) == paint_all(
                pixels@,
                width as int,
                line_walk(
                    x as int,
                    y as int,
                    err as int,
                    x1 as int,
                    y1 as int,
                    dx as int,
                    dy as int,
                    sx as int,
                    sy as int,
                ),
                color,
            ),
        invariant
            width <= usize::MAX / 1024,
            dx == abs(x1 - x0),
            dy == -abs(y1 - y0),
            sx == (if x0 < x1 { 1int } else { -1int }),
            sy == (if y0 < y1 { 1int } else { -1int }),
            toward(x as int, x1 as int, sx as int),
            toward(y as int, y1 as int, sy as int),
            3 * dy <= 2 * err <= 3 * dx,
        ensures
            paint_all(old(pixels)@, width as int, total, color) == pixels@,
        decreases abs(x1 - x) + abs(y1 - y),
    {
        let ghost before = pixels@;
        let ghost walk = line_walk(
            x as int,
            y as int,
            err as int,
            x1 as int,
            y1 as int,
            dx as int,
            dy as int,
            sx as int,
            sy as int,
        );
        set_pixel(pixels, width, x, y, color);
        proof {
            assert(walk[0] == (x as int, y as int));
            assert(paint_all(before, width as int, walk, color) == paint_all(
                pixels@,
                width as int,
                walk.drop_first(),
                color,
            ));
        }
        if x == x1 && y == y1 {
            proof {
                assert(walk.drop_first() =~= Seq::<Point>::empty());
            }
            break;
        }
        let e2: i64 = 2 * err;
        if e2 >= dy {
            if x == x1 {
                proof {
                    assert(walk.drop_first() =~= Seq::<Point>::empty());
                }
                break;
            }
            err += dy;
            x += sx;
        }
        if e2 <= dx {
            if y == y1 {
                proof {
                    assert(walk.drop_first() =~= Seq::<Point>::empty());
                }
                break;
            }
            err += dx;
            y += sy;
        }
        proof {
            assert(walk.drop_first() =~= line_walk(
                x as int,
                y as int,
                err as int,
                x1 as int,
                y1 as int,
                dx as int,
                dy as int,
                sx as int,
                sy as int,
            ));
        }
    }
}

} // verus!

verus! {

/// `q` is one of the eight neighbours of `p`.
pub open spec fn adjacent(p: Point, q: Point) -> bool {
    abs(p.0 - q.0) <= 1 && abs(p.1 - q.1) <= 1 && p != q
}

/// A run of points is 8-connected: each point neighbours the next.
pub open spec fn connected(pts: Seq<Point>) -> bool {
    forall|i: int| 0 <= i < pts.len() - 1 ==> adjacent(#[trigger] pts[i], pts[i + 1])
}

proof fn lemma_walk_reaches_end(
    x: int,
    y: int,
    err: int,
    x1: int,
    y1: int,
    dx: int,
    dy: int,
    sx: int,
    sy: int,
)
    requires
        toward(x, x1, sx),
        toward(y, y1, sy),
        dx >= 0,
        dy <= 0,
        abs(x1 - x) <= dx,
        abs(y1 - y) <= -dy,
        err == dx + dy + abs(x1 - x) * (-dy) - abs(y1 - y) * dx,
    ensures
        ({
            let w = line_walk(x, y, err, x1, y1, dx, dy, sx, sy);
            &&& w.len() >= 1
            &&& w[0] == (x, y)
            &&& w.last() == (x1, y1)
            &&& connected(w)
        }),
    decreases abs(x1 - x) + abs(y1 - y),
{
    let w = line_walk(x, y, err, x1, y1, dx, dy, sx, sy);
    let mx = abs(x1 - x);
    let my = abs(y1 - y);
    let ady = -dy;
    if x == x1 && y == y1 {
    } else {
        let e2 = 2 * err;
        assert(err == dx + dy + mx * ady - my * dx);
        if x == x1 {
            assert(mx == 0);
            assert(mx * ady == 0) by (nonlinear_arith)
                requires
                    mx == 0,
            ;
            assert(my >= 1);
            assert(my * dx >= dx) by (nonlinear_arith)
                requires
                    my >= 1,
                    dx >= 0,
            ;
            assert(e2 < dy);
        }
        if y == y1 {
            assert(my == 0);
            assert(my * dx == 0) by (nonlinear_arith)
                requires
                    my == 0,
            ;
            assert(mx >= 1);
            assert(mx * ady >= ady) by (nonlinear_arith)
                requires
                    mx >= 1,
                    ady >= 0,
            ;
            assert(e2 > dx);
        }
        let xs = if e2 >= dy { 1int } else { 0int };
        let ys = if e2 <= dx { 1int } else { 0int };
        assert(xs + ys >= 1);
        let x2 = x + xs * sx;
        let y3 = y + ys * sy;
        let err3 = err + xs * dy + ys * dx;
        assert(abs(x1 - x2) == mx - xs);
        assert(abs(y1 - y3) == my - ys);
        assert(err3 == dx + dy + (mx - xs) * ady - (my - ys) * dx) by (nonlinear_arith)
            requires
                err == dx + dy + mx * ady - my * dx,
                err3 == err + xs * dy + ys * dx,
                ady == -dy,
        ;
        lemma_walk_reaches_end(x2, y3, err3, x1, y1, dx, dy, sx, sy);
        let rest = line_walk(x2, y3, err3, x1, y1, dx, dy, sx, sy);
        assert(!(e2 >= dy && x == x1));
        assert(!(e2 <= dx && y == y1));
        assert(w == seq![(x, y)] + rest);
        assert forall|i: int| 0 <= i < w.len() - 1 implies adjacent(#[trigger] w[i], w[i + 1]) by {
            if i > 0 {
                assert(w[i] == rest[i - 1] && w[i + 1] == rest[i]);
            } else {
                assert(w[1] == rest[0]);
            }
        }
    }
}

/// A line starts at its first end point, ends at its second, and is
/// 8-connected.
pub proof fn law_line_endpoints(x0: int, y0: int, x1: int, y1: int)
    ensures
        ({
            let w = line_points(x0, y0, x1, y1);
            &&& w.len() >= 1
            &&& w[0] == (x0, y0)
            &&& w.last() == (x1, y1)
            &&& connected(w)
        }),
{
    let dx = abs(x1 - x0);
    let dy = -abs(y1 - y0);
    assert(dx * (-dy) - (-dy) * dx == 0) by (nonlinear_arith);
    let sx = if x0 < x1 { 1int } else { -1int };
    let sy = if y0 < y1 { 1int } else { -1int };
    lemma_walk_reaches_end(x0, y0, dx + dy, x1, y1, dx, dy, sx, sy);
}

} // verus!

verus! {

/// Integer square root: the largest `r` with `r * r <= n` (0 for `n <= 0`).
pub open spec fn isqrt(n: int) -> int
    decreases n,
{
    if n <= 0 {
        0
    } else {
        let r = isqrt(n - 1);
        if (r + 1) * (r + 1) <= n {
            r + 1
        } else {
            r
        }
    }
}

/// `isqrt(n)` is the floor of the square root of `n`.
pub proof fn lemma_isqrt(n: int)
    requires
        n >= 0,
    ensures
        isqrt(n) >= 0,
        isqrt(n) * isqrt(n) <= n < (isqrt(n) + 1) * (isqrt(n) + 1),
    decreases n,
{
    if n > 0 {
        lemma_isqrt(n - 1);
        let r = isqrt(n - 1);
        if (r + 1) * (r + 1) <= n {
            assert(n < (r + 2) * (r + 2)) by (nonlinear_arith)
                requires
                    n - 1 < (r + 1) * (r + 1),
                    r >= 0,
            ;
        }
    }
}

/// Any `r >= 0` with `r * r <= n < (r + 1) * (r + 1)` is `isqrt(n)`.
pub proof fn lemma_isqrt_unique(n: int, r: int)
    requires
        r >= 0,
        r * r <= n < (r + 1) * (r + 1),
    ensures
        isqrt(n) == r,
{
    lemma_isqrt(n);
    let q = isqrt(n);
    if q < r {
        assert((q + 1) * (q + 1) <= r * r) by (nonlinear_arith)
            requires
                q < r,
                q >= 0,
        ;
    } else if q > r {
        assert((r + 1) * (r + 1) <= q * q) by (nonlinear_arith)
            requires
                r < q,
                r >= 0,
        ;
    }
}

/// Integer square root of `n`. For the values drawn here, this is the
/// truncated `f64` square root: a correctly rounded square root of an
/// integer below 2^53 never reaches the next integer.
pub fn int_sqrt(n: u64) -> (r: u64)
    requires
        n < 0x4000_0000_0000_0000,
    ensures
        r as int == isqrt(n as int),
{
    let mut lo: u64 = 0;
    let mut hi: u64 = 0x8000_0000;
    assert(hi * hi > n) by (nonlinear_arith)
        requires
            hi == 0x8000_0000,
            n < 0x4000_0000_0000_0000,
    ;
    while hi - lo > 1
        invariant
            lo < hi <= 0x8000_0000,
            lo * lo <= n,
            n < hi * hi,
        decreases hi - lo,
    {
        let mid = lo + (hi - lo) / 2;
        assert(mid * mid <= 0x8000_0000u64 * 0x8000_0000u64) by (nonlinear_arith)
            requires
                mid <= 0x8000_0000,
        ;
        if mid * mid <= n {
            lo = mid;
        } else {
            hi = mid;
        }
    }
    proof {
        assert(hi == lo + 1);
        lemma_isqrt_unique(n as int, lo as int);
    }
    lo
}

} // verus!

verus! {

/// Which part of a disk a fill covers.
#[derive(Clone, Copy, PartialEq, Eq)]
pub enum Region {
    /// The whole disk.
    Disk,
    /// The lower-right eighth: rows below the centre, columns right of the
    /// centre at least as far out as the row.
    LowerRightWedge,
    /// The left half, centre column included.
    LeftHalf,
    /// All but the upper-right quadrant.
    AllButUpperRight,
}

/// First row offset of a fill.
pub open spec fn region_first_row(kind: Region, r: int) -> int {
    match kind {
        Region::LowerRightWedge => 0,
        _ => -r,
    }
}

/// Column range `(lo, hi)` of a row whose half-width is `m`.
pub open spec fn region_cols(kind: Region, m: int) -> (int, int) {
    match kind {
        Region::LowerRightWedge => (0, m),
        Region::LeftHalf => (-m, 0),
        _ => (-m, m),
    }
}

/// Whether offset `(dx, dy)` in the column range is filled.
pub open spec fn region_keeps(kind: Region, dx: int, dy: int) -> bool {
    match kind {
        Region::LowerRightWedge => dx >= dy,
        Region::AllButUpperRight => !(dx > 0 && dy < 0),
        _ => true,
    }
}

/// Filled points of row `dy` from column `dx` to column `hi`.
pub open spec fn row_points(cx: int, cy: int, dy: int, dx: int, hi: int, kind: Region) -> Seq<Point>
    decreases hi - dx + 1,
{
    if dx > hi {
        Seq::empty()
    } else {
        (if region_keeps(kind, dx, dy) {
            seq![(cx + dx, cy + dy)]
        } else {
            Seq::empty()
        }) + row_points(cx, cy, dy, dx + 1, hi, kind)
    }
}

/// Filled points of rows `dy..=r`, each row spanning the disk's width there.
pub open spec fn region_rows(cx: int, cy: int, r: int, dy: int, kind: Region) -> Seq<Point>
    decreases r - dy + 1,
{
    if dy > r {
        Seq::empty()
    } else {
        let m = isqrt(r * r - dy * dy);
        let cols = region_cols(kind, m);
        row_points(cx, cy, dy, cols.0, cols.1, kind) + region_rows(cx, cy, r, dy + 1, kind)
    }
}

/// Points filled for part `kind` of the disk of radius `r` around `(cx, cy)`,
/// row by row from the top, each row left to right.
pub open spec fn region_points(cx: int, cy: int, r: int, kind: Region) -> Seq<Point> {
    region_rows(cx, cy, r, region_first_row(kind, r), kind)
}

/// Fill the points of one row of a region, from column `lo` to column `hi`.
fn fill_row(
    pixels: &mut [u8],
    width: usize,
    cx: i32,
    cy: i32,
    dy: i64,
    lo: i64,
    hi: i64,
    kind: Region,
    color: Color,
)
    requires
        width <= usize::MAX / 1024,
        -0x8000_0001 <= lo,
        hi <= 0x8000_0000,
        -0x8000_0000 <= dy <= 0x8000_0000,
    ensures
        final(pixels)@ == paint_all(
            old(pixels)@,
            width as int,
            row_points(cx as int, cy as int, dy as int, lo as int, hi as int, kind),
            color,
        ),
{
    let mut dx: i64 = lo;
    while dx <= hi
        invariant
            width <= usize::MAX / 1024,
            lo <= dx,
            dx <= hi + 1 || dx == lo,
            -0x8000_0001 <= lo,
            hi <= 0x8000_0000,
            -0x8000_0000 <= dy <= 0x8000_0000,
            paint_all(
                old(pixels)@,
                width as int,
                row_points(cx as int, cy as int, dy as int, lo as int, hi as int, kind),
                color,
            ) == paint_all(
                pixels@,
                width as int,
                row_points(cx as int, cy as int, dy as int, dx as int, hi as int, kind),
                color,
            ),
        decreases hi - dx + 1,
    {
        let keep = match kind {
            Region::LowerRightWedge => dx >= dy,
            Region::AllButUpperRight => !(dx > 0 && dy < 0),
            _ => true,
        };
        let ghost before = pixels@;
        let ghost tail = row_points(cx as int, cy as int, dy as int, dx + 1, hi as int, kind);
        let ghost head = if keep {
            seq![(cx + dx, cy + dy)]
        } else {
            Seq::<Point>::empty()
        };
        proof {
            assert(keep == region_keeps(kind, dx as int, dy as int));
            assert(row_points(cx as int, cy as int, dy as int, dx as int, hi as int, kind) == head
                + tail);
            lemma_paint_all_concat(before, width as int, head, tail, color);
        }
        if keep {
            plot(pixels, width, cx as i64 + dx, cy as i64 + dy, color);
            proof {
                reveal_with_fuel(paint_all, 2);
                assert(head.drop_first() =~= Seq::<Point>::empty());
                assert(paint_all(before, width as int, head, color) == pixels@);
            }
        }
        dx += 1;
    }
}

/// Half-width of row `dy` of the disk of radius `r`: `isqrt(r*r - dy*dy)`.
fn half_width(r: i64, dy: i64) -> (m: i64)
    requires
        -r <= dy <= r,
        r < 0x8000_0000,
    ensures
        m as int == isqrt(r * r - dy * dy),
        0 <= m <= 0x8000_0000,
{
    assert(dy * dy <= r * r) by (nonlinear_arith)
        requires
            -r <= dy <= r,
    ;
    assert(r * r < 0x4000_0000_0000_0000) by (nonlinear_arith)
        requires
            0 <= r < 0x8000_0000,
    ;
    assert(0 <= dy * dy <= 0x4000_0000_0000_0000) by (nonlinear_arith)
        requires
            -r <= dy <= r,
            r < 0x8000_0000,
    ;
    let r2: i64 = r * r;
    let d2: i64 = dy * dy;
    let m = int_sqrt((r2 - d2) as u64);
    proof {
        lemma_isqrt(r * r - dy * dy);
        assert(m <= 0x8000_0000) by (nonlinear_arith)
            requires
                m * m <= r * r,
                m >= 0,
                0 <= r < 0x8000_0000,
        ;
    }
    m as i64
}

/// Fill part `kind` of the disk of radius `r` around `(cx, cy)`.
pub(crate) fn fill_region(
    pixels: &mut [u8],
    width: usize,
    cx: i32,
    cy: i32,
    r: i32,
    kind: Region,
    color: Color,
)
    requires
        width <= usize::MAX / 1024,
    ensures
        final(pixels)@ == paint_all(
            old(pixels)@,
            width as int,
            region_points(cx as int, cy as int, r as int, kind),
            color,
        ),
{
    let rr: i64 = r as i64;
    let mut dy: i64 = match kind {
        Region::LowerRightWedge => 0,
        _ => -rr,
    };
    let ghost all = region_points(cx as int, cy as int, r as int, kind);
    while dy <= rr
        invariant
            width <= usize::MAX / 1024,
            rr == r,
            region_first_row(kind, r as int) <= dy,
            paint_all(old(pixels)@, width as int, all, color) == paint_all(
                pixels@,
                width as int,
                region_rows(cx as int, cy as int, r as int, dy as int, kind),
                color,
            ),
        decreases rr - dy + 1,
    {
        assert(-rr <= dy);
        let m: i64 = half_width(rr, dy);
        let (lo, hi): (i64, i64) = match kind {
            Region::LowerRightWedge => (0, m),
            Region::LeftHalf => (-m, 0),
            _ => (-m, m),
        };
        proof {
            assert(lo as int == region_cols(kind, m as int).0 && hi as int == region_cols(kind, m as int).1);
            let rest = region_rows(cx as int, cy as int, r as int, dy as int + 1, kind);
            lemma_paint_all_concat(
                pixels@,
                width as int,
                row_points(cx as int, cy as int, dy as int, lo as int, hi as int, kind),
                rest,
                color,
            );
        }
        fill_row(pixels, width, cx, cy, dy, lo, hi, kind, color);
        dy += 1;
    }
}

/// The eight symmetric points of offset `(x, y)` around `(cx, cy)`.
pub open spec fn eight_points(cx: int, cy: int, x: int, y: int) -> Seq<Point> {
    seq![
        (cx + x, cy + y),
        (cx - x, cy + y),
        (cx + x, cy - y),
        (cx - x, cy - y),
        (cx + y, cy + x),
        (cx - y, cy + x),
        (cx + y, cy - x),
        (cx - y, cy - x),
    ]
}

/// Points of the midpoint circle walk from offset `(x, y)` with error term `err`.
pub open spec fn ring_walk(cx: int, cy: int, x: int, y: int, err: int) -> Seq<Point>
    decreases x - y + 2,
{
    if x < y {
        Seq::empty()
    } else {
        let y2 = y + 1;
        let x2 = if err < 0 { x } else { x - 1 };
        let err2 = if err < 0 { err + 2 * y2 + 1 } else { err + 2 * (y2 - x2) + 1 };
        eight_points(cx, cy, x, y) + ring_walk(cx, cy, x2, y2, err2)
    }
}

/// Points of the outline of the circle of radius `r` around `(cx, cy)`.
pub open spec fn ring_points(cx: int, cy: int, r: int) -> Seq<Point> {
    ring_walk(cx, cy, r, 0, 1 - r)
}

/// Draw the outline of a circle with the midpoint algorithm.
pub(crate) fn draw_ring(pixels: &mut [u8], width: usize, cx: i32, cy: i32, radius: i32, color: Color)
    requires
        width <= usize::MAX / 1024,
    ensures
        final(pixels)@ == paint_all(
            old(pixels)@,
            width as int,
            ring_points(cx as int, cy as int, radius as int),
            color,
        ),
{
    let r: i128 = radius as i128;
    let mut x: i128 = r;
    let mut y: i128 = 0;
    let mut err: i128 = 1 - r;
    let c0: i128 = cx as i128;
    let c1: i128 = cy as i128;
    let ghost all = ring_points(cx as int, cy as int, radius as int);
    while x >= y
        invariant
            width <= usize::MAX / 1024,
            c0 == cx,
            c1 == cy,
            r == radius,
            0 <= y,
            x <= r,
            y <= r + 1 || x < y,
            err == x * x + y * y - r * r - x + 2 * y + 1,
            paint_all(old(pixels)@, width as int, all, color) == paint_all(
                pixels@,
                width as int,
                ring_walk(cx as int, cy as int, x as int, y as int, err as int),
                color,
            ),
        decreases x - y + 2,
    {
        let ghost before = pixels@;
        let ghost walk = ring_walk(cx as int, cy as int, x as int, y as int, err as int);
        assert(-0x8000_0001 <= x <= 0x8000_0000);
        assert(0 <= y <= 0x8000_0001);
        plot_eight(pixels, width, c0, c1, x, y, color);
        proof {
            let e = eight_points(cx as int, cy as int, x as int, y as int);
            lemma_paint_all_concat(
                before,
                width as int,
                e,
                walk.subrange(8, walk.len() as int),
                color,
            );
            assert(walk =~= e + walk.subrange(8, walk.len() as int));
        }
        assert(x * x <= 0x8000_0001 * 0x8000_0001) by (nonlinear_arith)
            requires
                -0x8000_0001 <= x <= 0x8000_0001,
        ;
        assert(y * y <= 0x8000_0001 * 0x8000_0001) by (nonlinear_arith)
            requires
                0 <= y <= 0x8000_0001,
        ;
        assert(r * r <= 0x8000_0001 * 0x8000_0001) by (nonlinear_arith)
            requires
                -0x8000_0001 <= r <= 0x8000_0001,
        ;
        let ghost ox = x;
        let ghost oy = y;
        let ghost oe = err;
        y += 1;
        if err < 0 {
            err += 2 * y + 1;
            proof {
                assert(err == x * x + y * y - r * r - x + 2 * y + 1) by (nonlinear_arith)
                    requires
                        err == oe + 2 * y + 1,
                        y == oy + 1,
                        x == ox,
                        oe == ox * ox + oy * oy - r * r - ox + 2 * oy + 1,
                ;
            }
        } else {
            x -= 1;
            err += 2 * (y - x) + 1;
            proof {
                assert(err == x * x + y * y - r * r - x + 2 * y + 1) by (nonlinear_arith)
                    requires
                        err == oe + 2 * (y - x) + 1,
                        y == oy + 1,
                        x == ox - 1,
                        oe == ox * ox + oy * oy - r * r - ox + 2 * oy + 1,
                ;
            }
        }
        proof {
            assert(walk.subrange(8, walk.len() as int) == ring_walk(
                cx as int,
                cy as int,
                x as int,
                y as int,
                err as int,
            ));
        }
    }
}

/// Drawing the points of `pts` from index `k` on is drawing point `k`, then
/// the points after it.
proof fn lemma_paint_step(px: Seq<u8>, width: int, pts: Seq<Point>, k: int, c: Color)
    requires
        0 <= k < pts.len(),
    ensures
        paint_all(px, width, pts.subrange(k, pts.len() as int), c) == paint_all(
            paint(px, width, pts[k].0, pts[k].1, c),
            width,
            pts.subrange(k + 1, pts.len() as int),
            c,
        ),
{
    assert(pts.subrange(k, pts.len() as int).drop_first() =~= pts.subrange(
        k + 1,
        pts.len() as int,
    ));
}

/// Draw the eight symmetric points of offset `(x, y)` around `(cx, cy)`.
fn plot_eight(pixels: &mut [u8], width: usize, cx: i128, cy: i128, x: i128, y: i128, color: Color)
    requires
        width <= usize::MAX / 1024,
        -0x8000_0000 <= cx < 0x8000_0000,
        -0x8000_0000 <= cy < 0x8000_0000,
        -0x8000_0001 <= x <= 0x8000_0001,
        -0x8000_0001 <= y <= 0x8000_0001,
    ensures
        final(pixels)@ == paint_all(
            old(pixels)@,
            width as int,
            eight_points(cx as int, cy as int, x as int, y as int),
            color,
        ),
{
    let ghost e = eight_points(cx as int, cy as int, x as int, y as int);
    let ghost w = width as int;
    let ghost s0 = pixels@;
    plot_i128(pixels, width, cx + x, cy + y, color);
    proof { lemma_paint_step(s0, w, e, 0, color); }
    let ghost s1 = pixels@;
    plot_i128(pixels, width, cx - x, cy + y, color);
    proof { lemma_paint_step(s1, w, e, 1, color); }
    let ghost s2 = pixels@;
    plot_i128(pixels, width, cx + x, cy - y, color);
    proof { lemma_paint_step(s2, w, e, 2, color); }
    let ghost s3 = pixels@;
    plot_i128(pixels, width, cx - x, cy - y, color);
    proof { lemma_paint_step(s3, w, e, 3, color); }
    let ghost s4 = pixels@;
    plot_i128(pixels, width, cx + y, cy + x, color);
    proof { lemma_paint_step(s4, w, e, 4, color); }
    let ghost s5 = pixels@;
    plot_i128(pixels, width, cx - y, cy + x, color);
    proof { lemma_paint_step(s5, w, e, 5, color); }
    let ghost s6 = pixels@;
    plot_i128(pixels, width, cx + y, cy - x, color);
    proof { lemma_paint_step(s6, w, e, 6, color); }
    let ghost s7 = pixels@;
    plot_i128(pixels, width, cx - y, cy - x, color);
    proof {
        lemma_paint_step(s7, w, e, 7, color);
        assert(e.subrange(0, 8) =~= e);
        assert(e.subrange(8, 8) =~= Seq::<Point>::empty());
    }
}

/// Draw `color` at `(x, y)`, for coordinates that may lie outside `i64`.
fn plot_i128(pixels: &mut [u8], width: usize, x: i128, y: i128, color: Color)
    requires
        width <= usize::MAX / 1024,
    ensures
        final(pixels)@ == paint(old(pixels)@, width as int, x as int, y as int, color),
{
    if x < 0 || y < 0 || y >= 256 || x >= 0x4000_0000_0000_0000i128 {
        proof {
            if x >= 0x4000_0000_0000_0000i128 && x < width {
                assert(false);
            }
        }
        return;
    }
    plot(pixels, width, x as i64, y as i64, color);
}

} // verus!

verus! {

/// Pixels of a circle of radius `r` around `(cx, cy)`: the whole disk when
/// `filled`, else its midpoint outline.
pub open spec fn circle_points(cx: int, cy: int, r: int, filled: bool) -> Seq<Point> {
    if filled {
        region_points(cx, cy, r, Region::Disk)
    } else {
        ring_points(cx, cy, r)
    }
}

/// Draw a circle, filled row by row or as a midpoint outline.
pub fn draw_circle(
    pixels: &mut [u8],
    width: usize,
    cx: i32,
    cy: i32,
    radius: i32,
    color: Color,
    filled: bool,
)
    requires
        width <= usize::MAX / 1024,
        -46340 <= radius <= 46340,
        -0x7fff_0000 <= cx <= 0x7fff_0000,
        -0x7fff_0000 <= cy <= 0x7fff_0000,
    ensures
        final(pixels)@ == paint_all(
            old(pixels)@,
            width as int,
            circle_points(cx as int, cy as int, radius as int, filled),
            color,
        ),
{
    if filled {
        fill_region(pixels, width, cx, cy, radius, Region::Disk, color);
    } else {
        draw_ring(pixels, width, cx, cy, radius, color);
    }
}

/// Pixels of a two-pixel-thick line: the line itself, then copies shifted
/// one pixel right and one pixel down.
pub open spec fn thick_line_points(x0: int, y0: int, x1: int, y1: int) -> Seq<Point> {
    line_points(x0, y0, x1, y1) + line_points(x0 + 1, y0, x1 + 1, y1) + line_points(
        x0,
        y0 + 1,
        x1,
        y1 + 1,
    )
}

/// Draw a thick line (2px).
pub fn draw_line_thick(
    pixels: &mut [u8],
    width: usize,
    x0: i32,
    y0: i32,
    x1: i32,
    y1: i32,
    color: Color,
)
    requires
        width <= usize::MAX / 1024,
        x0 < i32::MAX,
        y0 < i32::MAX,
        x1 < i32::MAX,
        y1 < i32::MAX,
    ensures
        final(pixels)@ == paint_all(
            old(pixels)@,
            width as int,
            thick_line_points(x0 as int, y0 as int, x1 as int, y1 as int),
            color,
        ),
{
    let ghost w = width as int;
    let ghost a = line_points(x0 as int, y0 as int, x1 as int, y1 as int);
    let ghost b = line_points(x0 + 1, y0 as int, x1 + 1, y1 as int);
    let ghost c = line_points(x0 as int, y0 + 1, x1 as int, y1 + 1);
    proof {
        lemma_paint_all_concat(old(pixels)@, w, a + b, c, color);
        lemma_paint_all_concat(old(pixels)@, w, a, b, color);
    }
    draw_line(pixels, width, x0, y0, x1, y1, color);
    draw_line(pixels, width, x0 + 1, y0, x1 + 1, y1, color);
    draw_line(pixels, width, x0, y0 + 1, x1, y1 + 1, color);
}

} // verus!

verus! {

/// One step of the line walk from a state on the line: it neither steps
/// past the end column nor past the end row, and the next state is again
/// on the line.
pub proof fn lemma_walk_step(
    x: int,
    y: int,
    err: int,
    x1: int,
    y1: int,
    dx: int,
    dy: int,
    sx: int,
    sy: int,
)
    requires
        toward(x, x1, sx),
        toward(y, y1, sy),
        dx >= 0,
        dy <= 0,
        abs(x1 - x) <= dx,
        abs(y1 - y) <= -dy,
        err == dx + dy + abs(x1 - x) * (-dy) - abs(y1 - y) * dx,
        !(x == x1 && y == y1),
    ensures
        ({
            let e2 = 2 * err;
            let x2 = if e2 >= dy { x + sx } else { x };
            let y3 = if e2 <= dx { y + sy } else { y };
            let err3 = err + (if e2 >= dy { dy } else { 0 }) + (if e2 <= dx { dx } else { 0 });
            &&& (x == x1 ==> e2 < dy)
            &&& (y == y1 ==> e2 > dx)
            &&& toward(x2, x1, sx)
            &&& toward(y3, y1, sy)
            &&& abs(x1 - x2) <= dx
            &&& abs(y1 - y3) <= -dy
            &&& err3 == dx + dy + abs(x1 - x2) * (-dy) - abs(y1 - y3) * dx
            &&& line_walk(x, y, err, x1, y1, dx, dy, sx, sy) == seq![(x, y)] + line_walk(
                x2,
                y3,
                err3,
                x1,
                y1,
                dx,
                dy,
                sx,
                sy,
            )
        }),
{
    let mx = abs(x1 - x);
    let my = abs(y1 - y);
    let ady = -dy;
    let e2 = 2 * err;
    if x == x1 {
        assert(mx * ady == 0) by (nonlinear_arith)
            requires
                mx == 0,
        ;
        assert(my * dx >= dx) by (nonlinear_arith)
            requires
                my >= 1,
                dx >= 0,
        ;
    }
    if y == y1 {
        assert(my * dx == 0) by (nonlinear_arith)
            requires
                my == 0,
        ;
        assert(mx * ady >= ady) by (nonlinear_arith)
            requires
                mx >= 1,
                ady >= 0,
        ;
    }
    let xs = if e2 >= dy { 1int } else { 0int };
    let ys = if e2 <= dx { 1int } else { 0int };
    let x2 = x + xs * sx;
    let y3 = y + ys * sy;
    let err3 = err + xs * dy + ys * dx;
    assert(err3 == dx + dy + (mx - xs) * ady - (my - ys) * dx) by (nonlinear_arith)
        requires
            err == dx + dy + mx * ady - my * dx,
            err3 == err + xs * dy + ys * dx,
            ady == -dy,
    ;
}

} // verus!
