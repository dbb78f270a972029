//! Scan conversion of screen-space triangles into the pixel buffer.
//!
//! A triangle is filled row by row. On each row the two boundary columns are found
//! by linear interpolation along the triangle's long edge and along the short edge
//! that spans the row, each rounded toward zero, and the inclusive span between
//! them is painted in one solid colour.

use vstd::prelude::*;
use crate::frame::{fill_cells, lemma_cell_in_frame, lemma_index_bound, paint, put_pixel};

verus! {

/// A point of the screen in whole pixels.
#[derive(Clone, Copy, Debug, PartialEq, Eq, Structural)]
pub struct Vec2d {
    pub x: i32,
    pub y: i32,
}

/// A triangle of the screen, its corners in drawing order.
#[derive(Clone, Copy, Debug, PartialEq, Eq, Structural)]
pub struct Triangle2d {
    pub a: Vec2d,
    pub b: Vec2d,
    pub c: Vec2d,
}

/// A triangle ready for the rasterizer: where it lies, its packed colour, and the
/// depth by which it is ordered (larger is farther away).
#[derive(Clone, Copy, Debug, PartialEq, Eq, Structural)]
pub struct TriToRaster {
    pub tri: Triangle2d,
    pub color: u32,
    pub avg_z: i64,
}

/// The quotient of `n` by a positive `d`, rounded toward zero.
pub open spec fn trunc_div(n: int, d: int) -> int {
    if n >= 0 {
        n / d
    } else {
        -((-n) / d)
    }
}

/// The column reached `num / den` of the way from `xa` to `xb`, rounded toward zero.
pub open spec fn edge_x(xa: int, xb: int, num: int, den: int) -> int {
    trunc_div(xa * den + (xb - xa) * num, den)
}

/// The three corners ordered from the top row to the bottom row, by three
/// conditional exchanges: first with second, first with third, second with third.
pub open spec fn by_height(a: Vec2d, b: Vec2d, c: Vec2d) -> (Vec2d, Vec2d, Vec2d) {
    let (a1, b1) = if a.y > b.y {
        (b, a)
    } else {
        (a, b)
    };
    let (a2, c1) = if a1.y > c.y {
        (c, a1)
    } else {
        (a1, c)
    };
    let (b2, c2) = if b1.y > c1.y {
        (c1, b1)
    } else {
        (b1, c1)
    };
    (a2, b2, c2)
}

/// The first and last column of the span on row `y`, for corners ordered by height
/// with `top.y < low.y` and `top.y <= y <= low.y`.
pub open spec fn span_ends(top: Vec2d, mid: Vec2d, low: Vec2d, y: int) -> (int, int) {
    let i = y - top.y;
    let long_x = edge_x(top.x as int, low.x as int, i, low.y - top.y);
    let short_x = if i > mid.y - top.y || mid.y == top.y {
        edge_x(mid.x as int, low.x as int, i - (mid.y - top.y), low.y - mid.y)
    } else {
        edge_x(top.x as int, mid.x as int, i, mid.y - top.y)
    };
    if long_x < short_x {
        (long_x, short_x)
    } else {
        (short_x, long_x)
    }
}

/// Whether the filled triangle `a`, `b`, `c` holds the pixel at column `x`, row `y`.
/// A triangle whose corners all lie on one row holds no pixel.
pub open spec fn covers(a: Vec2d, b: Vec2d, c: Vec2d, x: int, y: int) -> bool {
    let (top, mid, low) = by_height(a, b, c);
    &&& top.y < low.y
    &&& top.y <= y <= low.y
    &&& span_ends(top, mid, low, y).0 <= x <= span_ends(top, mid, low, y).1
}

/// The buffer after the triangle was filled with `color`.
pub open spec fn filled(
    buf: Seq<u32>,
    a: Vec2d,
    b: Vec2d,
    c: Vec2d,
    color: u32,
    width: int,
    height: int,
) -> Seq<u32> {
    paint(buf, |x: int, y: int| covers(a, b, c, x, y), color, width, height)
}

/// The buffer after each entry of `list` was filled in turn, the first entry first.
pub open spec fn rendered(buf: Seq<u32>, list: Seq<TriToRaster>, width: int, height: int) -> Seq<
    u32,
>
    decreases list.len(),
{
    if list.len() == 0 {
        buf
    } else {
        let e = list.last();
        filled(
            rendered(buf, list.drop_last(), width, height),
            e.tri.a,
            e.tri.b,
            e.tri.c,
            e.color,
            width,
            height,
        )
    }
}

/// An interpolated column lies between the two columns it was taken from.
pub proof fn lemma_edge_x_between(xa: int, xb: int, num: int, den: int)
    requires
        0 <= num <= den,
        0 < den,
    ensures
        xa <= xb ==> xa <= edge_x(xa, xb, num, den) <= xb,
        xb <= xa ==> xb <= edge_x(xa, xb, num, den) <= xa,
{
    let n = xa * den + (xb - xa) * num;
    let lo = if xa <= xb {
        xa
    } else {
        xb
    };
    let hi = if xa <= xb {
        xb
    } else {
        xa
    };
    assert(lo * den <= n <= hi * den) by (nonlinear_arith)
        requires
            n == xa * den + (xb - xa) * num,
            0 <= num <= den,
            lo <= xa <= hi,
            lo <= xb <= hi,
            lo == xa || lo == xb,
            hi == xa || hi == xb,
    ;
    if n >= 0 {
        let q = n / den;
        vstd::arithmetic::div_mod::lemma_fundamental_div_mod(n, den);
        vstd::arithmetic::div_mod::lemma_mod_bound(n, den);
        assert(lo <= q <= hi) by (nonlinear_arith)
            requires
                n == den * q + n % den,
                0 <= n % den < den,
                lo * den <= n <= hi * den,
                0 < den,
        ;
    } else {
        let q = (-n) / den;
        vstd::arithmetic::div_mod::lemma_fundamental_div_mod(-n, den);
        vstd::arithmetic::div_mod::lemma_mod_bound(-n, den);
        assert(lo <= -q <= hi) by (nonlinear_arith)
            requires
                -n == den * q + (-n) % den,
                0 <= (-n) % den < den,
                lo * den <= n <= hi * den,
                0 < den,
        ;
    }
}

/// The corners that `by_height` returns are the given three, top row first.
pub proof fn lemma_by_height_sorted(a: Vec2d, b: Vec2d, c: Vec2d)
    ensures
        by_height(a, b, c).0.y <= by_height(a, b, c).1.y <= by_height(a, b, c).2.y,
        ({
            let (p, q, r) = by_height(a, b, c);
            ||| (p, q, r) == (a, b, c)
            ||| (p, q, r) == (a, c, b)
            ||| (p, q, r) == (b, a, c)
            ||| (p, q, r) == (b, c, a)
            ||| (p, q, r) == (c, a, b)
            ||| (p, q, r) == (c, b, a)
        }),
{
}

/// A triangle whose corners lie on one row, or that lies wholly above or below a
/// row, leaves that row untouched.
pub proof fn lemma_covers_rows(a: Vec2d, b: Vec2d, c: Vec2d, x: int, y: int)
    requires
        covers(a, b, c, x, y),
    ensures
        a.y <= y || b.y <= y || c.y <= y,
        y <= a.y || y <= b.y || y <= c.y,
        !(a.y == b.y && b.y == c.y),
{
}

/// Every pixel of a filled triangle lies between its leftmost and rightmost corner.
pub proof fn lemma_covers_columns(a: Vec2d, b: Vec2d, c: Vec2d, x: int, y: int)
    requires
        covers(a, b, c, x, y),
    ensures
        a.x <= x || b.x <= x || c.x <= x,
        x <= a.x || x <= b.x || x <= c.x,
{
    let (top, mid, low) = by_height(a, b, c);
    let i = y - top.y;
    lemma_edge_x_between(top.x as int, low.x as int, i, low.y - top.y);
    if i > mid.y - top.y || mid.y == top.y {
        lemma_edge_x_between(mid.x as int, low.x as int, i - (mid.y - top.y), low.y - mid.y);
    } else {
        lemma_edge_x_between(top.x as int, mid.x as int, i, mid.y - top.y);
    }
}

/// A filled triangle holds the same pixels in whatever order its corners are given.
pub proof fn lemma_covers_any_order(a: Vec2d, b: Vec2d, c: Vec2d, x: int, y: int)
    ensures
        covers(a, b, c, x, y) == covers(b, a, c, x, y),
        covers(a, b, c, x, y) == covers(a, c, b, x, y),
        covers(a, b, c, x, y) == covers(c, b, a, x, y),
        covers(a, b, c, x, y) == covers(b, c, a, x, y),
        covers(a, b, c, x, y) == covers(c, a, b, x, y),
{
}

/// In whatever order the corners of a triangle are given, filling it gives the
/// same frame.
pub proof fn lemma_filled_any_order(
    buf: Seq<u32>,
    a: Vec2d,
    b: Vec2d,
    c: Vec2d,
    color: u32,
    width: int,
    height: int,
)
    ensures
        filled(buf, a, b, c, color, width, height) == filled(buf, b, a, c, color, width, height),
        filled(buf, a, b, c, color, width, height) == filled(buf, a, c, b, color, width, height),
        filled(buf, a, b, c, color, width, height) == filled(buf, c, b, a, color, width, height),
        filled(buf, a, b, c, color, width, height) == filled(buf, b, c, a, color, width, height),
        filled(buf, a, b, c, color, width, height) == filled(buf, c, a, b, color, width, height),
{
    let first = filled(buf, a, b, c, color, width, height);
    assert forall|i: int| 0 <= i < buf.len() implies first[i] == filled(
        buf,
        b,
        a,
        c,
        color,
        width,
        height,
    )[i] && first[i] == filled(buf, a, c, b, color, width, height)[i] && first[i] == filled(
        buf,
        c,
        b,
        a,
        color,
        width,
        height,
    )[i] && first[i] == filled(buf, b, c, a, color, width, height)[i] && first[i] == filled(
        buf,
        c,
        a,
        b,
        color,
        width,
        height,
    )[i] by {
        if width > 0 {
            lemma_covers_any_order(a, b, c, i % width, i / width);
        }
    }
    assert(first =~= filled(buf, b, a, c, color, width, height));
    assert(first =~= filled(buf, a, c, b, color, width, height));
    assert(first =~= filled(buf, c, b, a, color, width, height));
    assert(first =~= filled(buf, b, c, a, color, width, height));
    assert(first =~= filled(buf, c, a, b, color, width, height));
}

/// The column `num / den` of the way from `xa` to `xb`, in arithmetic wide enough
/// for any two columns and any height of a triangle.
fn interpolate(xa: i32, xb: i32, num: i64, den: i64) -> (r: i128)
    requires
        0 <= num <= den,
        0 < den <= 0xffff_ffff,
    ensures
        r == edge_x(xa as int, xb as int, num as int, den as int),
{
    let xa_w: i128 = xa as i128;
    let diff: i128 = xb as i128 - xa as i128;
    let num_w: i128 = num as i128;
    let den_w: i128 = den as i128;
    assert(-0x8000_0000_0000_0000 <= xa_w * den_w <= 0x8000_0000_0000_0000) by (nonlinear_arith)
        requires
            -0x8000_0000 <= xa_w <= 0x8000_0000,
            0 < den_w <= 0x1_0000_0000,
    ;
    assert(-0x1_0000_0000_0000_0000 <= diff * num_w <= 0x1_0000_0000_0000_0000)
        by (nonlinear_arith)
        requires
            -0x1_0000_0000 <= diff <= 0x1_0000_0000,
            0 <= num_w <= 0x1_0000_0000,
    ;
    let n: i128 = xa_w * den_w + diff * num_w;
    if n >= 0 {
        n / den_w
    } else {
        -((-n) / den_w)
    }
}

/// Orders three corners from the top row to the bottom row.
fn sort_by_height(a: Vec2d, b: Vec2d, c: Vec2d) -> (r: (Vec2d, Vec2d, Vec2d))
    ensures
        r == by_height(a, b, c),
        r.0.y <= r.1.y <= r.2.y,
{
    let (a1, b1) = if a.y > b.y {
        (b, a)
    } else {
        (a, b)
    };
    let (a2, c1) = if a1.y > c.y {
        (c, a1)
    } else {
        (a1, c)
    };
    let (b2, c2) = if b1.y > c1.y {
        (c1, b1)
    } else {
        (b1, c1)
    };
    (a2, b2, c2)
}

/// The first and last column of the triangle on row `y`.
fn row_span(top: Vec2d, mid: Vec2d, low: Vec2d, y: i32) -> (r: (i128, i128))
    requires
        top.y <= mid.y <= low.y,
        top.y < low.y,
        top.y <= y <= low.y,
    ensures
        r.0 == span_ends(top, mid, low, y as int).0,
        r.1 == span_ends(top, mid, low, y as int).1,
{
    let i: i64 = y as i64 - top.y as i64;
    let total: i64 = low.y as i64 - top.y as i64;
    let upper: i64 = mid.y as i64 - top.y as i64;
    let long_x = interpolate(top.x, low.x, i, total);
    let short_x = if i > upper || mid.y == top.y {
        interpolate(mid.x, low.x, i - upper, low.y as i64 - mid.y as i64)
    } else {
        interpolate(top.x, mid.x, i, upper)
    };
    if long_x < short_x {
        (long_x, short_x)
    } else {
        (short_x, long_x)
    }
}

/// Writes `color` at every column from `first` to `last` of row `y`, one pixel at a time.
fn plot_span(buf: &mut [u32], y: usize, first: usize, last: usize, color: u32, width: usize, height: usize)
    requires
        old(buf)@.len() >= width * height,
        first <= last < width,
        y < height,
        width <= 0x7fff_ffff,
        height <= 0x7fff_ffff,
    ensures
        final(buf)@.len() == old(buf)@.len(),
        forall|i: int|
            0 <= i < old(buf)@.len() ==> final(buf)@[i] == if y * width + first <= i <= y * width
                + last {
                color
            } else {
                old(buf)@[i]
            },
{
    let len = buf.len();
    let mut x: usize = first;
    proof {
        lemma_index_bound(last as int, y as int, width as int, height as int);
    }
    while x <= last
        invariant
            first <= x <= last + 1,
            last < width,
            y < height,
            width <= 0x7fff_ffff,
            height <= 0x7fff_ffff,
            buf@.len() == len,
            len == old(buf)@.len(),
            len >= width * height,
            0 <= y * width,
            y * width + last < width * height,
            forall|i: int|
                0 <= i < len ==> buf@[i] == if y * width + first <= i < y * width + x {
                    color
                } else {
                    old(buf)@[i]
                },
        decreases last + 1 - x,
    {
        put_pixel(buf, x as i32, y as i32, color, width, height);
        x = x + 1;
    }
}

/// Fills a triangle row by row, each row either pixel by pixel or in one sweep.
fn scan_convert(
    buf: &mut [u32],
    a: Vec2d,
    b: Vec2d,
    c: Vec2d,
    color: u32,
    width: usize,
    height: usize,
    by_pixel: bool,
)
    requires
        old(buf)@.len() >= width * height,
    ensures
        final(buf)@ == filled(old(buf)@, a, b, c, color, width as int, height as int),
{
    let len = buf.len();
    let (top, mid, low) = sort_by_height(a, b, c);
    if top.y == low.y || low.y < 0 || width == 0 || height == 0 {
        proof {
            let goal = filled(old(buf)@, a, b, c, color, width as int, height as int);
            assert forall|i: int| 0 <= i < len implies buf@[i] == goal[i] by {
                if i < width * height && width > 0 {
                    lemma_cell_in_frame(i, width as int, height as int);
                }
            }
            assert(buf@ =~= goal);
        }
        return ;
    }
    let first_row: usize = if top.y < 0 {
        0
    } else {
        top.y as usize
    };
    let last_row: usize = if (low.y as usize) < height {
        low.y as usize
    } else {
        height - 1
    };
    let narrow = width <= 0x7fff_ffff && height <= 0x7fff_ffff;
    let mut y: usize = first_row;
    proof {
        let start = paint(
            old(buf)@,
            |x: int, yy: int| covers(a, b, c, x, yy) && yy < y,
            color,
            width as int,
            height as int,
        );
        assert forall|i: int| 0 <= i < len implies buf@[i] == start[i] by {
            if i < width * height {
                lemma_cell_in_frame(i, width as int, height as int);
            }
        }
        assert(buf@ =~= start);
    }
    while y <= last_row
        invariant
            first_row <= y,
            y <= last_row + 1 || last_row < first_row,
            last_row < height,
            last_row <= low.y,
            last_row == low.y || last_row == height - 1,
            top.y <= first_row,
            width > 0,
            (top, mid, low) == by_height(a, b, c),
            top.y <= mid.y <= low.y,
            top.y < low.y,
            narrow == (width <= 0x7fff_ffff && height <= 0x7fff_ffff),
            buf@.len() == len,
            len == old(buf)@.len(),
            len >= width * height,
            buf@ == paint(
                old(buf)@,
                |x: int, yy: int| covers(a, b, c, x, yy) && yy < y,
                color,
                width as int,
                height as int,
            ),
        decreases last_row + 1 - y,
    {
        let ghost before = buf@;
        let (lo, hi) = row_span(top, mid, low, y as i32);
        let lo_c: i128 = if lo < 0 {
            0
        } else {
            lo
        };
        let hi_c: i128 = if hi >= width as i128 {
            width as i128 - 1
        } else {
            hi
        };
        proof {
            lemma_index_bound(0, y as int, width as int, height as int);
        }
        if lo_c <= hi_c {
            let first = lo_c as usize;
            let last = hi_c as usize;
            proof {
                lemma_index_bound(last as int, y as int, width as int, height as int);
            }
            if by_pixel && narrow {
                plot_span(buf, y, first, last, color, width, height);
            } else {
                fill_cells(buf, y * width + first, last - first + 1, color);
            }
        }
        proof {
            let w = width as int;
            let h = height as int;
            let next = paint(
                old(buf)@,
                |x: int, yy: int| covers(a, b, c, x, yy) && yy < y + 1,
                color,
                w,
                h,
            );
            assert forall|i: int| 0 <= i < len implies buf@[i] == next[i] by {
                if i < w * h {
                    lemma_cell_in_frame(i, w, h);
                    let cx = i % w;
                    let cy = i / w;
                    if cy == y {
                        assert(i == y * w + cx);
                        assert(covers(a, b, c, cx, cy) <==> (lo <= cx <= hi));
                    } else {
                        assert(i < y * w || i >= y * w + w) by (nonlinear_arith)
                            requires
                                i == cy * w + cx,
                                0 <= cx < w,
                                cy != y,
                        ;
                    }
                }
            }
            assert(buf@ =~= next);
        }
        y = y + 1;
    }
    proof {
        let w = width as int;
        let h = height as int;
        let goal = filled(old(buf)@, a, b, c, color, w, h);
        assert forall|i: int| 0 <= i < len implies buf@[i] == goal[i] by {
            if i < w * h {
                lemma_cell_in_frame(i, w, h);
            }
        }
        assert(buf@ =~= goal);
    }
}

/// Fills the triangle with corners `(x0, y0)`, `(x1, y1)`, `(x2, y2)`, writing the
/// pixels of each row one at a time and passing over those outside the frame.
pub fn fill_triangle(
    buf: &mut [u32],
    x0: i32,
    y0: i32,
    x1: i32,
    y1: i32,
    x2: i32,
    y2: i32,
    color: u32,
    width: usize,
    height: usize,
)
    requires
        old(buf)@.len() >= width * height,
    ensures
        final(buf)@ == filled(
            old(buf)@,
            Vec2d { x: x0, y: y0 },
            Vec2d { x: x1, y: y1 },
            Vec2d { x: x2, y: y2 },
            color,
            width as int,
            height as int,
        ),
{
    scan_convert(
        buf,
        Vec2d { x: x0, y: y0 },
        Vec2d { x: x1, y: y1 },
        Vec2d { x: x2, y: y2 },
        color,
        width,
        height,
        true,
    );
}

/// Fills the triangle with corners `(x0, y0)`, `(x1, y1)`, `(x2, y2)`, skipping rows
/// outside the frame and writing each row's span, cut to the frame, in one sweep.
pub fn fill_triangle_optimized(
    buf: &mut [u32],
    x0: i32,
    y0: i32,
    x1: i32,
    y1: i32,
    x2: i32,
    y2: i32,
    color: u32,
    width: usize,
    height: usize,
)
    requires
        old(buf)@.len() >= width * height,
    ensures
        final(buf)@ == filled(
            old(buf)@,
            Vec2d { x: x0, y: y0 },
            Vec2d { x: x1, y: y1 },
            Vec2d { x: x2, y: y2 },
            color,
            width as int,
            height as int,
        ),
{
    scan_convert(
        buf,
        Vec2d { x: x0, y: y0 },
        Vec2d { x: x1, y: y1 },
        Vec2d { x: x2, y: y2 },
        color,
        width,
        height,
        false,
    );
}

/// Fills every triangle of `list` in order, so that later entries overdraw earlier ones.
pub fn render_triangles(buffer: &mut [u32], list_triangles: &Vec<TriToRaster>, width: usize, height: usize)
    requires
        old(buffer)@.len() >= width * height,
    ensures
        final(buffer)@ == rendered(old(buffer)@, list_triangles@, width as int, height as int),
        final(buffer)@.len() == old(buffer)@.len(),
{
    let mut k: usize = 0;
    while k < list_triangles.len()
        invariant
            k <= list_triangles.len(),
            buffer@.len() == old(buffer)@.len(),
            buffer@.len() >= width * height,
            buffer@ == rendered(
                old(buffer)@,
                list_triangles@.take(k as int),
                width as int,
                height as int,
            ),
        decreases list_triangles.len() - k,
    {
        let e = list_triangles[k];
        proof {
            assert(list_triangles@.take(k + 1).drop_last() =~= list_triangles@.take(k as int));
            assert(list_triangles@.take(k + 1).last() == e);
        }
        fill_triangle_optimized(
            buffer,
            e.tri.a.x,
            e.tri.a.y,
            e.tri.b.x,
            e.tri.b.y,
            e.tri.c.x,
            e.tri.c.y,
            e.color,
            width,
            height,
        );
        k = k + 1;
    }
    proof {
        assert(list_triangles@.take(k as int) =~= list_triangles@);
    }
}

} // verus!
