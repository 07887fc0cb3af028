//! Wind-barb tiles: barb spacing by zoom and the pixels of the lines and
//! circles that make up a barb.
use vstd::prelude::*;
use crate::raster::{abs, lemma_walk_step, line_points, line_walk, toward, Point};

verus! {

/// Pixel spacing between wind barbs on a tile at zoom `z`: sparser when
/// zoomed out.
pub open spec fn barb_spacing(z: u32) -> int {
    if z <= 2 {
        64
    } else if z == 3 {
        56
    } else if z == 4 {
        48
    } else if z == 5 {
        40
    } else if z == 6 {
        36
    } else if z == 7 {
        32
    } else if z == 8 {
        28
    } else {
        24
    }
}

/// Pixel spacing between wind barbs on a tile at zoom `z`.
pub fn barb_spacing_for_zoom(z: u32) -> (r: usize)
    ensures
        r == barb_spacing(z),
{
    match z {
        0..=2 => 64,
        3 => 56,
        4 => 48,
        5 => 40,
        6 => 36,
        7 => 32,
        8 => 28,
        _ => 24,
    }
}


/// The points as integer pairs.
pub open spec fn as_points(v: Seq<(i32, i32)>) -> Seq<Point> {
    v.map_values(|p: (i32, i32)| (p.0 as int, p.1 as int))
}

/// The pixels of a Bresenham line from `(x0, y0)` to `(x1, y1)`, in the
/// order they are drawn.
pub fn bresenham_points(x0: i32, y0: i32, x1: i32, y1: i32) -> (r: Vec<(i32, i32)>)
    requires
        abs(x1 - x0) <= 0x1fff_ffff,
        abs(y1 - y0) <= 0x1fff_ffff,
    ensures
        as_points(r@) == line_points(x0 as int, y0 as int, x1 as int, y1 as int),
{
    let dx: i64 = if x1 >= x0 { x1 as i64 - x0 as i64 } else { x0 as i64 - x1 as i64 };
    let dy: i64 = if y1 >= y0 { y0 as i64 - y1 as i64 } else { y1 as i64 - y0 as i64 };
    let sx: i32 = if x0 < x1 { 1 } else { -1 };
    let sy: i32 = if y0 < y1 { 1 } else { -1 };
    let mut err: i64 = dx + dy;
    let mut cx = x0;
    let mut cy = y0;
    let mut out: Vec<(i32, i32)> = Vec::new();
    let ghost total = line_points(x0 as int, y0 as int, x1 as int, y1 as int);
    proof {
        assert(dx * (-dy) - (-dy) * dx == 0) by (nonlinear_arith);
        assert(abs(x1 - x0) * (-dy) - abs(y1 - y0) * dx == 0) by (nonlinear_arith)
            requires
                dx == abs(x1 - x0),
                dy == -abs(y1 - y0),
        ;
        assert(as_points(out@) =~= Seq::<Point>::empty());
    }
    loop
        invariant
            dx == abs(x1 - x0),
            dy == -abs(y1 - y0),
            dx <= 0x1fff_ffff,
            dy >= -0x1fff_ffff,
            sx == (if x0 < x1 { 1int } else { -1int }),
            sy == (if y0 < y1 { 1int } else { -1int }),
            toward(cx as int, x1 as int, sx as int),
            toward(cy as int, y1 as int, sy as int),
            abs(x1 - cx) <= dx,
            abs(y1 - cy) <= -dy,
            err == dx + dy + abs(x1 - cx) * (-dy) - abs(y1 - cy) * dx,
            3 * dy <= 2 * err <= 3 * dx,
            total == line_points(x0 as int, y0 as int, x1 as int, y1 as int),
            total == as_points(out@) + line_walk(
                cx as int,
                cy as int,
                err as int,
                x1 as int,
                y1 as int,
                dx as int,
                dy as int,
                sx as int,
                sy as int,
            ),
        decreases abs(x1 - cx) + abs(y1 - cy),
    {
        let ghost before = as_points(out@);
        out.push((cx, cy));
        if cx == x1 && cy == y1 {
            proof {
                assert(as_points(out@) =~= before.push((cx as int, cy as int)));
                assert(total =~= as_points(out@));
            }
            return out;
        }
        proof {
            lemma_walk_step(
                cx as int,
                cy as int,
                err as int,
                x1 as int,
                y1 as int,
                dx as int,
                dy as int,
                sx as int,
                sy as int,
            );
        }
        let e2 = 2 * err;
        let ghost ox = cx;
        let ghost oy = cy;
        let ghost oe = err;
        if e2 >= dy {
            err += dy;
            cx += sx;
        }
        if e2 <= dx {
            err += dx;
            cy += sy;
        }
        proof {
            assert(as_points(out@) =~= before.push((ox as int, oy as int)));
            assert(total =~= as_points(out@) + line_walk(
                cx as int,
                cy as int,
                err as int,
                x1 as int,
                y1 as int,
                dx as int,
                dy as int,
                sx as int,
                sy as int,
            ));
        }
    }
}

/// The offsets `(dx, dy)` of a square of half-width `r`, row by row from
/// row `dy`, each row left to right from column `dx`, that `keep` accepts,
/// moved to `(cx, cy)`.
pub open spec fn square_scan(
    cx: int,
    cy: int,
    r: int,
    dy: int,
    dx: int,
    keep: spec_fn(int, int) -> bool,
) -> Seq<Point>
    decreases r - dy + 1, r - dx + 1,
{
    if dy > r {
        Seq::empty()
    } else if dx > r {
        square_scan(cx, cy, r, dy + 1, -r, keep)
    } else {
        (if keep(dx, dy) {
            seq![(cx + dx, cy + dy)]
        } else {
            Seq::empty()
        }) + square_scan(cx, cy, r, dy, dx + 1, keep)
    }
}

/// Offsets inside the disk of radius `r`.
pub open spec fn in_disk(r: int) -> spec_fn(int, int) -> bool {
    |dx: int, dy: int| dx * dx + dy * dy <= r * r
}

/// Offsets in the ring between radii `inner` and `outer`.
pub open spec fn in_ring(inner: int, outer: int) -> spec_fn(int, int) -> bool {
    |dx: int, dy: int| inner * inner <= dx * dx + dy * dy <= outer * outer
}

/// The pixels of a filled circle of radius `radius` around `(cx, cy)`, row
/// by row.
pub fn circle_filled_points(cx: i32, cy: i32, radius: i32) -> (r: Vec<(i32, i32)>)
    requires
        -32767 <= radius <= 32767,
        -0x7fff_0000 <= cx <= 0x7fff_0000,
        -0x7fff_0000 <= cy <= 0x7fff_0000,
    ensures
        as_points(r@) == square_scan(cx as int, cy as int, radius as int, -radius, -radius, in_disk(radius as int)),
{
    let out = square_points(cx, cy, radius, 0, radius);
    proof {
        let a = in_ring(0, radius as int);
        let b = in_disk(radius as int);
        assert forall|dx: int, dy: int| #[trigger] a(dx, dy) == b(dx, dy) by {
            assert(dx * dx + dy * dy >= 0) by (nonlinear_arith);
        }
        assert(a =~= b);
    }
    out
}

/// Half of `t`, rounded toward zero (Rust's `t / 2`).
pub open spec fn half(t: int) -> int {
    if t >= 0 {
        t / 2
    } else {
        -((-t) / 2)
    }
}

/// The pixels of a circle outline of radius `radius` and width
/// `thickness` around `(cx, cy)`: those between `radius - thickness / 2`
/// (at least 0) and `radius + thickness / 2` from the centre, row by row.
pub fn circle_outline_points(cx: i32, cy: i32, radius: i32, thickness: i32) -> (r: Vec<(i32, i32)>)
    requires
        -0x3fff_ffff <= radius <= 0x3fff_ffff,
        -0x3fff_ffff <= thickness <= 0x3fff_ffff,
        -32767 <= radius + half(thickness as int) <= 32767,
        radius - half(thickness as int) <= 46340,
        -0x7fff_0000 <= cx <= 0x7fff_0000,
        -0x7fff_0000 <= cy <= 0x7fff_0000,
    ensures
        ({
            let outer = radius + half(thickness as int);
            let inner = if radius - half(thickness as int) > 0 {
                radius - half(thickness as int)
            } else {
                0
            };
            as_points(r@) == square_scan(cx as int, cy as int, outer, -outer, -outer, in_ring(inner, outer))
        }),
{
    let h: i32 = if thickness >= 0 { thickness / 2 } else { -((-thickness) / 2) };
    let outer = radius + h;
    let inner = if radius - h > 0 { radius - h } else { 0 };
    square_points(cx, cy, outer, inner, outer)
}

/// The pixels of the square of half-width `r` around `(cx, cy)` whose
/// squared distance from the centre lies between `inner`² and `outer`².
fn square_points(cx: i32, cy: i32, r: i32, inner: i32, outer: i32) -> (out: Vec<(i32, i32)>)
    requires
        -32767 <= r <= 32767,
        0 <= inner <= 46340,
        -32767 <= outer <= 32767,
        -0x7fff_0000 <= cx <= 0x7fff_0000,
        -0x7fff_0000 <= cy <= 0x7fff_0000,
    ensures
        as_points(out@) == square_scan(cx as int, cy as int, r as int, -r, -r, in_ring(inner as int, outer as int)),
{
    let mut out: Vec<(i32, i32)> = Vec::new();
    let ghost keep = in_ring(inner as int, outer as int);
    let ghost total = square_scan(cx as int, cy as int, r as int, -r, -r, keep);
    assert(0 <= inner * inner <= 46340 * 46340) by (nonlinear_arith)
        requires
            0 <= inner <= 46340,
    ;
    assert(0 <= outer * outer <= 32767 * 32767) by (nonlinear_arith)
        requires
            -32767 <= outer <= 32767,
    ;
    let lo2: i64 = inner as i64 * inner as i64;
    let hi2: i64 = outer as i64 * outer as i64;
    let mut dy: i32 = -r;
    proof {
        assert(as_points(out@) =~= Seq::<Point>::empty());
    }
    while dy <= r
        invariant
            -32767 <= r <= 32767,
            -r <= dy,
            dy <= r + 1 || dy == -r,
            -0x7fff_0000 <= cx <= 0x7fff_0000,
            -0x7fff_0000 <= cy <= 0x7fff_0000,
            lo2 == inner * inner,
            hi2 == outer * outer,
            keep == in_ring(inner as int, outer as int),
            total == as_points(out@) + square_scan(cx as int, cy as int, r as int, dy as int, -r, keep),
        decreases r - dy + 1,
    {
        let mut dx: i32 = -r;
        while dx <= r
            invariant
                -32767 <= r <= 32767,
                -r <= dy <= r,
                -r <= dx <= r + 1,
                -0x7fff_0000 <= cx <= 0x7fff_0000,
                -0x7fff_0000 <= cy <= 0x7fff_0000,
                lo2 == inner * inner,
                hi2 == outer * outer,
                keep == in_ring(inner as int, outer as int),
                total == as_points(out@) + square_scan(cx as int, cy as int, r as int, dy as int, dx as int, keep),
            decreases r - dx + 1,
        {
            let ghost before = as_points(out@);
            proof {
                assert(0 <= dx * dx <= 32767 * 32767) by (nonlinear_arith)
                    requires
                        -32767 <= dx <= 32767,
                ;
                assert(0 <= dy * dy <= 32767 * 32767) by (nonlinear_arith)
                    requires
                        -32767 <= dy <= 32767,
                ;
            }
            let d2: i64 = dx as i64 * dx as i64 + dy as i64 * dy as i64;
            let hit = d2 <= hi2 && d2 >= lo2;
            assert(hit == keep(dx as int, dy as int));
            if hit {
                out.push((cx + dx, cy + dy));
                proof {
                    assert(as_points(out@) =~= before.push((cx + dx, cy + dy)));
                }
            }
            proof {
                assert(total == as_points(out@) + square_scan(cx as int, cy as int, r as int, dy as int, dx + 1, keep));
            }
            dx += 1;
        }
        proof {
            assert(square_scan(cx as int, cy as int, r as int, dy as int, dx as int, keep) == square_scan(cx as int, cy as int, r as int, dy + 1, -r, keep));
        }
        dy += 1;
    }
    proof {
        assert(square_scan(cx as int, cy as int, r as int, dy as int, -r, keep) =~= Seq::<Point>::empty());
        assert(total =~= as_points(out@));
    }
    out
}

} // verus!
