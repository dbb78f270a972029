//! Straight lines between pixels, and the outline of a triangle.
//!
//! A line runs one pixel at a time along its longer extent. Along the shorter one
//! it follows the true line, rounded to the nearest pixel, a half rounding away
//! from the start.

use vstd::prelude::*;
use vstd::arithmetic::div_mod::lemma_fundamental_div_mod_converse;
use crate::frame::{in_frame, lemma_cell_in_frame, lemma_index_split, paint, pixel_index, plot, put_pixel};
use crate::raster::Triangle2d;

verus! {

/// The size of `v` without its sign.
pub open spec fn magnitude(v: int) -> int {
    if v < 0 {
        -v
    } else {
        v
    }
}

/// The step that leads from `from` toward `to`: one forward if `to` lies ahead,
/// else one back.
pub open spec fn toward(from: int, to: int) -> int {
    if from < to {
        1
    } else {
        -1
    }
}

/// How far the line has moved along its shorter extent `minor` after `i` steps
/// along its longer extent `major`: `i * minor / major`, rounded to the nearest
/// whole number, a half rounded up.
pub open spec fn minor_offset(i: int, major: int, minor: int) -> int {
    (2 * minor * i + major) / (2 * major)
}

/// The number of the step at which the line from `(x0, y0)` to `(x1, y1)` would
/// reach the column `x` or, where the line is steeper than it is flat, the row `y`.
pub open spec fn step_index(x0: int, y0: int, x1: int, y1: int, x: int, y: int) -> int {
    if magnitude(x1 - x0) >= magnitude(y1 - y0) {
        (x - x0) * toward(x0, x1)
    } else {
        (y - y0) * toward(y0, y1)
    }
}

/// Whether the line from `(x0, y0)` to `(x1, y1)` holds the pixel at column `x`,
/// row `y`.
pub open spec fn on_line(x0: int, y0: int, x1: int, y1: int, x: int, y: int) -> bool {
    let a = magnitude(x1 - x0);
    let b = magnitude(y1 - y0);
    let i = step_index(x0, y0, x1, y1, x, y);
    if a == 0 && b == 0 {
        x == x0 && y == y0
    } else if a >= b {
        0 <= i <= a && y == y0 + toward(y0, y1) * minor_offset(i, a, b)
    } else {
        0 <= i <= b && x == x0 + toward(x0, x1) * minor_offset(i, b, a)
    }
}

/// Whether the pixel is one of the first `k` of the line.
pub open spec fn on_line_before(
    x0: int,
    y0: int,
    x1: int,
    y1: int,
    x: int,
    y: int,
    k: int,
) -> bool {
    on_line(x0, y0, x1, y1, x, y) && step_index(x0, y0, x1, y1, x, y) < k
}

/// Both ends of a line are on it.
pub proof fn lemma_line_ends(x0: int, y0: int, x1: int, y1: int)
    ensures
        on_line(x0, y0, x1, y1, x0, y0),
        on_line(x0, y0, x1, y1, x1, y1),
{
    let a = magnitude(x1 - x0);
    let b = magnitude(y1 - y0);
    lemma_unit_product(toward(x0, x1), 0);
    lemma_unit_product(toward(y0, y1), 0);
    lemma_unit_product(toward(x0, x1), x1 - x0);
    lemma_unit_product(toward(y0, y1), y1 - y0);
    lemma_unit_product(toward(x0, x1), a);
    lemma_unit_product(toward(y0, y1), b);
    if a == 0 && b == 0 {
    } else if a >= b {
        lemma_offset_at_ends(a, b);
    } else {
        lemma_offset_at_ends(b, a);
    }
}

/// A line holds no pixel outside the rectangle that its two ends span.
pub proof fn lemma_line_in_box(x0: int, y0: int, x1: int, y1: int, x: int, y: int)
    requires
        on_line(x0, y0, x1, y1, x, y),
    ensures
        x0 <= x <= x1 || x1 <= x <= x0,
        y0 <= y <= y1 || y1 <= y <= y0,
{
    let a = magnitude(x1 - x0);
    let b = magnitude(y1 - y0);
    let i = step_index(x0, y0, x1, y1, x, y);
    lemma_unit_product(toward(x0, x1), x - x0);
    lemma_unit_product(toward(y0, y1), y - y0);
    if a == 0 && b == 0 {
    } else if a >= b {
        lemma_offset_range(i, a, b);
        lemma_unit_product(toward(y0, y1), minor_offset(i, a, b));
    } else {
        lemma_offset_range(i, b, a);
        lemma_unit_product(toward(x0, x1), minor_offset(i, b, a));
    }
}

/// A product with a step of one forward or one back is the other factor, with or
/// without its sign turned.
proof fn lemma_unit_product(step: int, v: int)
    requires
        step == 1 || step == -1,
    ensures
        step * v == (if step == 1 {
            v
        } else {
            -v
        }),
        v * step == step * v,
{
    assert(step * v == (if step == 1 {
        v
    } else {
        -v
    }) && v * step == step * v) by (nonlinear_arith)
        requires
            step == 1 || step == -1,
    ;
}

proof fn lemma_offset_at_ends(major: int, minor: int)
    requires
        0 <= minor <= major,
        0 < major,
    ensures
        minor_offset(0, major, minor) == 0,
        minor_offset(major, major, minor) == minor,
{
    assert(2 * minor * 0 + major == major);
    lemma_fundamental_div_mod_converse(major, 2 * major, 0, major);
    assert(2 * minor * major + major == minor * (2 * major) + major) by (nonlinear_arith);
    lemma_fundamental_div_mod_converse(2 * minor * major + major, 2 * major, minor, major);
}

proof fn lemma_offset_bounds(i: int, major: int, minor: int)
    requires
        0 <= minor <= major,
        0 < major,
        0 <= i,
    ensures
        2 * major * minor_offset(i, major, minor) <= 2 * minor * i + major,
        2 * minor * i + major < 2 * major * minor_offset(i, major, minor) + 2 * major,
        0 <= minor_offset(i, major, minor),
{
    let n = 2 * minor * i + major;
    let d = 2 * major;
    assert(0 <= 2 * minor * i) by (nonlinear_arith)
        requires
            0 <= minor,
            0 <= i,
    ;
    vstd::arithmetic::div_mod::lemma_fundamental_div_mod(n, d);
    vstd::arithmetic::div_mod::lemma_mod_bound(n, d);
    let q = n / d;
    assert(0 <= q) by (nonlinear_arith)
        requires
            n == d * q + n % d,
            0 <= n % d < d,
            0 <= n,
            0 < d,
    ;
    assert(2 * major * q == d * q);
}

proof fn lemma_offset_range(i: int, major: int, minor: int)
    requires
        0 <= minor <= major,
        0 < major,
        0 <= i <= major,
    ensures
        0 <= minor_offset(i, major, minor) <= minor,
{
    lemma_offset_bounds(i, major, minor);
    let q = minor_offset(i, major, minor);
    assert(q <= minor) by (nonlinear_arith)
        requires
            2 * major * q <= 2 * minor * i + major,
            0 <= i <= major,
            0 <= minor,
            0 < major,
    ;
}

proof fn lemma_offset_is(i: int, major: int, minor: int, q: int)
    requires
        0 < major,
        2 * major * q <= 2 * minor * i + major < 2 * major * q + 2 * major,
    ensures
        minor_offset(i, major, minor) == q,
{
    let n = 2 * minor * i + major;
    let d = 2 * major;
    assert(n == q * d + (n - q * d)) by (nonlinear_arith);
    assert(0 <= n - q * d < d) by (nonlinear_arith)
        requires
            2 * major * q <= n < 2 * major * q + 2 * major,
            d == 2 * major,
    ;
    lemma_fundamental_div_mod_converse(n, d, q, n - q * d);
}

/// One step of the line: with `k` steps taken along the longer extent and `q`
/// along the shorter, the next step always advances along the longer extent, and
/// along the shorter one exactly when the error term says so.
proof fn lemma_next_step(k: int, major: int, minor: int, q: int, err_major: int)
    requires
        0 <= minor <= major,
        0 < major,
        0 <= k < major,
        q == minor_offset(k, major, minor),
        err_major == major - minor - minor * k + major * q,
    ensures
        2 * err_major >= -minor,
        -2 * major <= err_major <= 2 * major,
        2 * err_major <= major <==> minor_offset(k + 1, major, minor) == q + 1,
        2 * err_major > major <==> minor_offset(k + 1, major, minor) == q,
{
    lemma_offset_bounds(k, major, minor);
    let aq = major * q;
    let bk = minor * k;
    assert(2 * major * q == 2 * aq) by (nonlinear_arith)
        requires
            aq == major * q,
    ;
    assert(2 * minor * k == 2 * bk) by (nonlinear_arith)
        requires
            bk == minor * k,
    ;
    assert(2 * minor * (k + 1) == 2 * bk + 2 * minor) by (nonlinear_arith)
        requires
            bk == minor * k,
    ;
    assert(2 * major * (q + 1) == 2 * aq + 2 * major) by (nonlinear_arith)
        requires
            aq == major * q,
    ;
    if 2 * err_major <= major {
        lemma_offset_is(k + 1, major, minor, q + 1);
    } else {
        lemma_offset_is(k + 1, major, minor, q);
    }
}

/// Draws the line from `(x0, y0)` to `(x1, y1)`, both ends included; what falls
/// outside the frame is passed over.
pub fn draw_line(
    buf: &mut [u32],
    x0: i32,
    y0: i32,
    x1: i32,
    y1: i32,
    color: u32,
    width: usize,
    height: usize,
)
    requires
        old(buf)@.len() >= width * height,
    ensures
        final(buf)@ == paint(
            old(buf)@,
            |x: int, y: int| on_line(x0 as int, y0 as int, x1 as int, y1 as int, x, y),
            color,
            width as int,
            height as int,
        ),
{
    let ghost w = width as int;
    let ghost h = height as int;
    let ghost ax = x0 as int;
    let ghost ay = y0 as int;
    let ghost bx = x1 as int;
    let ghost by = y1 as int;
    let dx: i64 = if x0 < x1 {
        x1 as i64 - x0 as i64
    } else {
        x0 as i64 - x1 as i64
    };
    let sx: i64 = if x0 < x1 {
        1
    } else {
        -1
    };
    let dy: i64 = if y0 < y1 {
        y0 as i64 - y1 as i64
    } else {
        y1 as i64 - y0 as i64
    };
    let sy: i64 = if y0 < y1 {
        1
    } else {
        -1
    };
    let ghost a = dx as int;
    let ghost b = -(dy as int);
    let ghost flat = a >= b;
    let ghost major = if flat {
        a
    } else {
        b
    };
    let ghost minor = if flat {
        b
    } else {
        a
    };
    let mut x: i64 = x0 as i64;
    let mut y: i64 = y0 as i64;
    let mut err: i64 = dx + dy;
    let ghost mut k: int = 0;
    let ghost mut q: int = 0;
    let len = buf.len();
    proof {
        if major > 0 {
            lemma_offset_at_ends(major, minor);
        }
        let start = paint(
            old(buf)@,
            |cx: int, cy: int| on_line_before(ax, ay, bx, by, cx, cy, 0),
            color,
            w,
            h,
        );
        assert(buf@ =~= start);
    }
    loop
        invariant_except_break
            buf@ == paint(
                old(buf)@,
                |cx: int, cy: int| on_line_before(ax, ay, bx, by, cx, cy, k),
                color,
                w,
                h,
            ),
        invariant
            w == width,
            h == height,
            ax == x0,
            ay == y0,
            bx == x1,
            by == y1,
            a == magnitude(bx - ax),
            b == magnitude(by - ay),
            dx == a,
            dy == -b,
            sx == toward(ax, bx),
            sy == toward(ay, by),
            flat == (a >= b),
            major == (if flat { a } else { b }),
            minor == (if flat { b } else { a }),
            0 <= k <= major,
            major > 0 ==> q == minor_offset(k, major, minor),
            major == 0 ==> q == 0,
            0 <= q <= minor,
            x == ax + sx * (if flat { k } else { q }),
            y == ay + sy * (if flat { q } else { k }),
            err == a - b - b * (if flat { k } else { q }) + a * (if flat { q } else { k }),
            buf@.len() == len,
            len == old(buf)@.len(),
            len >= width * height,
        ensures
            buf@ == paint(
                old(buf)@,
                |cx: int, cy: int| on_line(ax, ay, bx, by, cx, cy),
                color,
                w,
                h,
            ),
        decreases major - k,
    {
        let ghost before = buf@;
        proof {
            assert(x0 <= x <= x1 || x1 <= x <= x0) by (nonlinear_arith)
                requires
                    x == ax + sx * (if flat { k } else { q }),
                    0 <= k <= major,
                    0 <= q <= minor,
                    minor <= major,
                    major == (if flat { a } else { b }),
                    minor == (if flat { b } else { a }),
                    a == magnitude(bx - ax),
                    sx == toward(ax, bx),
                    ax == x0,
                    bx == x1,
            ;
            assert(y0 <= y <= y1 || y1 <= y <= y0) by (nonlinear_arith)
                requires
                    y == ay + sy * (if flat { q } else { k }),
                    0 <= k <= major,
                    0 <= q <= minor,
                    minor <= major,
                    major == (if flat { a } else { b }),
                    minor == (if flat { b } else { a }),
                    b == magnitude(by - ay),
                    sy == toward(ay, by),
                    ay == y0,
                    by == y1,
            ;
        }
        put_pixel(buf, x as i32, y as i32, color, width, height);
        proof {
            lemma_point_added(ax, ay, bx, by, x as int, y as int, k, q, old(buf)@, before, buf@, color, w, h);
        }
        if x == x1 as i64 && y == y1 as i64 {
            proof {
                lemma_walk_done(ax, ay, bx, by, x as int, y as int, k, q);
                let done = paint(
                    old(buf)@,
                    |cx: int, cy: int| on_line(ax, ay, bx, by, cx, cy),
                    color,
                    w,
                    h,
                );
                assert forall|i: int| 0 <= i < len implies buf@[i] == done[i] by {
                    if w > 0 && i < w * h {
                        lemma_cell_in_frame(i, w, h);
                    }
                }
                assert(buf@ =~= done);
            }
            break ;
        }
        proof {
            lemma_walk_goes_on(ax, ay, bx, by, x as int, y as int, k, q);
            let err_major = if flat {
                err as int
            } else {
                -(err as int)
            };
            assert(err_major == major - minor - minor * k + major * q) by (nonlinear_arith)
                requires
                    err == a - b - b * (if flat { k } else { q }) + a * (if flat { q } else { k }),
                    major == (if flat { a } else { b }),
                    minor == (if flat { b } else { a }),
                    err_major == (if flat { err as int } else { -(err as int) }),
            ;
            lemma_next_step(k, major, minor, q, err_major);
            lemma_offset_range(k + 1, major, minor);
        }
        let e2 = 2 * err;
        if e2 >= dy {
            err += dy;
            x += sx;
        }
        if e2 <= dx {
            err += dx;
            y += sy;
        }
        proof {
            let next_q = minor_offset(k + 1, major, minor);
            assert(err == a - b - b * (if flat { k + 1 } else { next_q }) + a * (if flat {
                next_q
            } else {
                k + 1
            })) by (nonlinear_arith)
                requires
                    next_q == q || next_q == q + 1,
                    flat ==> err == a - b - b * k + a * q - b + (if next_q == q + 1 {
                        a
                    } else {
                        0
                    }),
                    !flat ==> err == a - b - b * q + a * k + a - (if next_q == q + 1 {
                        b
                    } else {
                        0
                    }),
            ;
            assert(x == ax + sx * (if flat { k + 1 } else { next_q })) by (nonlinear_arith)
                requires
                    next_q == q || next_q == q + 1,
                    flat ==> x == ax + sx * k + sx,
                    !flat ==> x == ax + sx * q + (if next_q == q + 1 {
                        sx as int
                    } else {
                        0
                    }),
            ;
            assert(y == ay + sy * (if flat { next_q } else { k + 1 })) by (nonlinear_arith)
                requires
                    next_q == q || next_q == q + 1,
                    !flat ==> y == ay + sy * k + sy,
                    flat ==> y == ay + sy * q + (if next_q == q + 1 {
                        sy as int
                    } else {
                        0
                    }),
            ;
            k = k + 1;
            q = next_q;
        }
    }
}

/// The walk has reached the far end exactly when it has taken all its steps.
proof fn lemma_walk_done(x0: int, y0: int, x1: int, y1: int, x: int, y: int, k: int, q: int)
    requires
        x == x1,
        y == y1,
        0 <= k <= (if magnitude(x1 - x0) >= magnitude(y1 - y0) {
            magnitude(x1 - x0)
        } else {
            magnitude(y1 - y0)
        }),
        x == x0 + toward(x0, x1) * (if magnitude(x1 - x0) >= magnitude(y1 - y0) {
            k
        } else {
            q
        }),
        y == y0 + toward(y0, y1) * (if magnitude(x1 - x0) >= magnitude(y1 - y0) {
            q
        } else {
            k
        }),
    ensures
        k == (if magnitude(x1 - x0) >= magnitude(y1 - y0) {
            magnitude(x1 - x0)
        } else {
            magnitude(y1 - y0)
        }),
        forall|cx: int, cy: int|
            on_line(x0, y0, x1, y1, cx, cy) ==> #[trigger] on_line_before(
                x0,
                y0,
                x1,
                y1,
                cx,
                cy,
                k + 1,
            ),
        forall|cx: int, cy: int|
            #[trigger] on_line_before(x0, y0, x1, y1, cx, cy, k + 1) ==> on_line(
                x0,
                y0,
                x1,
                y1,
                cx,
                cy,
            ),
{
    let sx = toward(x0, x1);
    let sy = toward(y0, y1);
    assert(sx * k == k || sx * k == -k) by (nonlinear_arith)
        requires
            sx == 1 || sx == -1,
    ;
    assert(sy * k == k || sy * k == -k) by (nonlinear_arith)
        requires
            sy == 1 || sy == -1,
    ;
}

/// Before its far end the walk has steps left to take.
proof fn lemma_walk_goes_on(x0: int, y0: int, x1: int, y1: int, x: int, y: int, k: int, q: int)
    requires
        !(x == x1 && y == y1),
        0 <= k <= (if magnitude(x1 - x0) >= magnitude(y1 - y0) {
            magnitude(x1 - x0)
        } else {
            magnitude(y1 - y0)
        }),
        (magnitude(x1 - x0) > 0 || magnitude(y1 - y0) > 0) ==> q == (if magnitude(x1 - x0)
            >= magnitude(y1 - y0) {
            minor_offset(k, magnitude(x1 - x0), magnitude(y1 - y0))
        } else {
            minor_offset(k, magnitude(y1 - y0), magnitude(x1 - x0))
        }),
        magnitude(x1 - x0) == 0 && magnitude(y1 - y0) == 0 ==> q == 0,
        x == x0 + toward(x0, x1) * (if magnitude(x1 - x0) >= magnitude(y1 - y0) {
            k
        } else {
            q
        }),
        y == y0 + toward(y0, y1) * (if magnitude(x1 - x0) >= magnitude(y1 - y0) {
            q
        } else {
            k
        }),
    ensures
        k < (if magnitude(x1 - x0) >= magnitude(y1 - y0) {
            magnitude(x1 - x0)
        } else {
            magnitude(y1 - y0)
        }),
{
    let a = magnitude(x1 - x0);
    let b = magnitude(y1 - y0);
    let sx = toward(x0, x1);
    let sy = toward(y0, y1);
    if a == 0 && b == 0 {
        assert(sx * 0 == 0 && sy * 0 == 0) by (nonlinear_arith);
    } else if a >= b {
        if k == a {
            lemma_offset_at_ends(a, b);
            assert(sx * a == x1 - x0) by (nonlinear_arith)
                requires
                    sx == toward(x0, x1),
                    a == magnitude(x1 - x0),
            ;
            assert(sy * b == y1 - y0) by (nonlinear_arith)
                requires
                    sy == toward(y0, y1),
                    b == magnitude(y1 - y0),
            ;
        }
    } else {
        if k == b {
            lemma_offset_at_ends(b, a);
            assert(sx * a == x1 - x0) by (nonlinear_arith)
                requires
                    sx == toward(x0, x1),
                    a == magnitude(x1 - x0),
            ;
            assert(sy * b == y1 - y0) by (nonlinear_arith)
                requires
                    sy == toward(y0, y1),
                    b == magnitude(y1 - y0),
            ;
        }
    }
}

/// Writing the pixel of step `k` turns the first `k` pixels of the line into its
/// first `k + 1`.
proof fn lemma_point_added(
    x0: int,
    y0: int,
    x1: int,
    y1: int,
    x: int,
    y: int,
    k: int,
    q: int,
    start: Seq<u32>,
    before: Seq<u32>,
    after: Seq<u32>,
    color: u32,
    w: int,
    h: int,
)
    requires
        0 <= k <= (if magnitude(x1 - x0) >= magnitude(y1 - y0) {
            magnitude(x1 - x0)
        } else {
            magnitude(y1 - y0)
        }),
        (magnitude(x1 - x0) > 0 || magnitude(y1 - y0) > 0) ==> q == (if magnitude(x1 - x0)
            >= magnitude(y1 - y0) {
            minor_offset(k, magnitude(x1 - x0), magnitude(y1 - y0))
        } else {
            minor_offset(k, magnitude(y1 - y0), magnitude(x1 - x0))
        }),
        magnitude(x1 - x0) == 0 && magnitude(y1 - y0) == 0 ==> q == 0,
        x == x0 + toward(x0, x1) * (if magnitude(x1 - x0) >= magnitude(y1 - y0) {
            k
        } else {
            q
        }),
        y == y0 + toward(y0, y1) * (if magnitude(x1 - x0) >= magnitude(y1 - y0) {
            q
        } else {
            k
        }),
        before == paint(
            start,
            |cx: int, cy: int| on_line_before(x0, y0, x1, y1, cx, cy, k),
            color,
            w,
            h,
        ),
        after == plot(before, x, y, color, w, h),
        start.len() >= w * h,
    ensures
        after == paint(
            start,
            |cx: int, cy: int| on_line_before(x0, y0, x1, y1, cx, cy, k + 1),
            color,
            w,
            h,
        ),
{
    let a = magnitude(x1 - x0);
    let b = magnitude(y1 - y0);
    let sx = toward(x0, x1);
    let sy = toward(y0, y1);
    let goal = paint(
        start,
        |cx: int, cy: int| on_line_before(x0, y0, x1, y1, cx, cy, k + 1),
        color,
        w,
        h,
    );
    lemma_unit_product(sx, k);
    lemma_unit_product(sy, k);
    lemma_unit_product(sx, q);
    lemma_unit_product(sy, q);
    lemma_unit_product(sx, x - x0);
    lemma_unit_product(sy, y - y0);
    assert(step_index(x0, y0, x1, y1, x, y) == k);
    assert(on_line(x0, y0, x1, y1, x, y));
    if in_frame(x, y, w, h) {
        crate::frame::lemma_index_bound(x, y, w, h);
        lemma_index_split(x, y, w);
    }
    assert forall|i: int| 0 <= i < start.len() implies after[i] == goal[i] by {
        if w > 0 && i < w * h {
            lemma_cell_in_frame(i, w, h);
            let cx = i % w;
            let cy = i / w;
            lemma_unit_product(sx, cx - x0);
            lemma_unit_product(sy, cy - y0);
            if in_frame(x, y, w, h) && i == pixel_index(x, y, w) {
                assert(cx == x && cy == y);
            } else {
                if on_line(x0, y0, x1, y1, cx, cy) && step_index(x0, y0, x1, y1, cx, cy) == k {
                    assert(cx == x && cy == y);
                    assert(false);
                }
                assert(on_line_before(x0, y0, x1, y1, cx, cy, k + 1) == on_line_before(
                    x0,
                    y0,
                    x1,
                    y1,
                    cx,
                    cy,
                    k,
                ));
            }
        }
    }
    assert(after =~= goal);
}

/// The colour of an outline: solid black.
pub const OUTLINE_COLOR: u32 = 0xFF00_0000;

/// Draws the three sides of a triangle in the colour of outlines.
pub fn draw_triangle(buf: &mut [u32], tri: &Triangle2d, width: usize, height: usize)
    requires
        old(buf)@.len() >= width * height,
    ensures
        final(buf)@ == paint(
            old(buf)@,
            |x: int, y: int|
                on_line(tri.a.x as int, tri.a.y as int, tri.b.x as int, tri.b.y as int, x, y)
                    || on_line(tri.b.x as int, tri.b.y as int, tri.c.x as int, tri.c.y as int, x, y)
                    || on_line(tri.c.x as int, tri.c.y as int, tri.a.x as int, tri.a.y as int, x, y),
            OUTLINE_COLOR,
            width as int,
            height as int,
        ),
{
    let color = OUTLINE_COLOR;
    let ghost w = width as int;
    let ghost h = height as int;
    let ghost start = buf@;
    let ghost first = |x: int, y: int|
        on_line(tri.a.x as int, tri.a.y as int, tri.b.x as int, tri.b.y as int, x, y);
    let ghost second = |x: int, y: int|
        on_line(tri.b.x as int, tri.b.y as int, tri.c.x as int, tri.c.y as int, x, y);
    let ghost third = |x: int, y: int|
        on_line(tri.c.x as int, tri.c.y as int, tri.a.x as int, tri.a.y as int, x, y);
    draw_line(buf, tri.a.x, tri.a.y, tri.b.x, tri.b.y, color, width, height);
    draw_line(buf, tri.b.x, tri.b.y, tri.c.x, tri.c.y, color, width, height);
    draw_line(buf, tri.c.x, tri.c.y, tri.a.x, tri.a.y, color, width, height);
    proof {
        let two = |x: int, y: int| first(x, y) || second(x, y);
        let all = |x: int, y: int| two(x, y) || third(x, y);
        let shape = |x: int, y: int|
            on_line(tri.a.x as int, tri.a.y as int, tri.b.x as int, tri.b.y as int, x, y)
                || on_line(tri.b.x as int, tri.b.y as int, tri.c.x as int, tri.c.y as int, x, y)
                || on_line(tri.c.x as int, tri.c.y as int, tri.a.x as int, tri.a.y as int, x, y);
        crate::frame::lemma_paint_twice(start, first, second, color, w, h);
        crate::frame::lemma_paint_twice(start, two, third, color, w, h);
        crate::frame::lemma_paint_same(start, all, shape, color, w, h);
    }
}

} // verus!
