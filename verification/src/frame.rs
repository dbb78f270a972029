//! The pixel buffer: a row-major frame of packed `0xAARRGGBB` cells.

use vstd::prelude::*;
use vstd::arithmetic::div_mod::lemma_fundamental_div_mod_converse;

verus! {

/// Whether column `x`, row `y` lies inside a frame of `width` by `height` pixels.
pub open spec fn in_frame(x: int, y: int, width: int, height: int) -> bool {
    0 <= x < width && 0 <= y < height
}

/// The cell of the buffer that holds column `x` of row `y`.
pub open spec fn pixel_index(x: int, y: int, width: int) -> int {
    y * width + x
}

/// The buffer after one pixel was written; a pixel outside the frame changes nothing.
pub open spec fn plot(buf: Seq<u32>, x: int, y: int, color: u32, width: int, height: int) -> Seq<
    u32,
> {
    if in_frame(x, y, width, height) {
        buf.update(pixel_index(x, y, width), color)
    } else {
        buf
    }
}

/// The buffer in which every pixel of the frame that `covered` selects holds `color`,
/// and every other cell is as in `buf`.
pub open spec fn paint(
    buf: Seq<u32>,
    covered: spec_fn(int, int) -> bool,
    color: u32,
    width: int,
    height: int,
) -> Seq<u32> {
    Seq::new(
        buf.len(),
        |i: int|
            if width > 0 && i < width * height && covered(i % width, i / width) {
                color
            } else {
                buf[i]
            },
    )
}

/// A cell index inside the frame splits into its column and row.
pub proof fn lemma_index_split(x: int, y: int, width: int)
    requires
        0 <= x < width,
        0 <= y,
    ensures
        pixel_index(x, y, width) % width == x,
        pixel_index(x, y, width) / width == y,
        pixel_index(x, y, width) >= 0,
{
    lemma_fundamental_div_mod_converse(y * width + x, width, y, x);
    assert(y * width >= 0) by (nonlinear_arith)
        requires
            y >= 0,
            width > 0,
    ;
}

/// Every cell of the frame lies below `width * height`.
pub proof fn lemma_index_bound(x: int, y: int, width: int, height: int)
    requires
        in_frame(x, y, width, height),
    ensures
        0 <= pixel_index(x, y, width) < width * height,
        0 <= y * width <= width * height - width,
{
    assert(0 <= y * width <= width * height - width) by (nonlinear_arith)
        requires
            0 <= y < height,
            width > 0,
    ;
}

/// A cell below `width * height` splits into a column and a row of the frame.
pub proof fn lemma_cell_in_frame(i: int, width: int, height: int)
    requires
        0 <= i < width * height,
        width > 0,
    ensures
        in_frame(i % width, i / width, width, height),
        pixel_index(i % width, i / width, width) == i,
{
    vstd::arithmetic::div_mod::lemma_fundamental_div_mod(i, width);
    vstd::arithmetic::div_mod::lemma_mod_bound(i, width);
    let q = i / width;
    assert(width * q == q * width) by (nonlinear_arith);
    assert(0 <= q < height) by (nonlinear_arith)
        requires
            0 <= i < width * height,
            width > 0,
            i == q * width + i % width,
            0 <= i % width < width,
    ;
}

/// Writes `color` at column `x`, row `y`; a position outside the frame is ignored.
pub fn put_pixel(buf: &mut [u32], x: i32, y: i32, color: u32, width: usize, height: usize)
    requires
        old(buf)@.len() >= width * height,
    ensures
        final(buf)@ == plot(old(buf)@, x as int, y as int, color, width as int, height as int),
        final(buf)@.len() == old(buf)@.len(),
{
    let len = buf.len();
    if x >= 0 && y >= 0 && (x as usize) < width && (y as usize) < height {
        proof {
            lemma_index_bound(x as int, y as int, width as int, height as int);
            assert(width * height <= len);
        }
        buf[(y as usize) * width + (x as usize)] = color;
    }
}

/// Writes `color` into the `count` cells that start at `start`.
pub fn fill_cells(buf: &mut [u32], start: usize, count: usize, color: u32)
    requires
        start + count <= old(buf)@.len(),
    ensures
        final(buf)@.len() == old(buf)@.len(),
        forall|i: int|
            0 <= i < old(buf)@.len() ==> final(buf)@[i] == if start <= i < start + count {
                color
            } else {
                old(buf)@[i]
            },
{
    let len = buf.len();
    let mut k: usize = 0;
    while k < count
        invariant
            k <= count,
            start + count <= len,
            buf@.len() == len,
            len == old(buf)@.len(),
            forall|i: int|
                0 <= i < len ==> buf@[i] == if start <= i < start + k {
                    color
                } else {
                    old(buf)@[i]
                },
        decreases count - k,
    {
        buf[start + k] = color;
        k = k + 1;
    }
}

/// Sets every cell of the buffer to zero, which is clear black.
pub fn clear_frame(buf: &mut [u32])
    ensures
        final(buf)@ == Seq::new(old(buf)@.len(), |i: int| 0u32),
{
    let len = buf.len();
    fill_cells(buf, 0, len, 0);
    assert(buf@ =~= Seq::new(old(buf)@.len(), |i: int| 0u32));
}

/// Makes the buffer fit a frame of `width` by `height` pixels and clears it.
pub fn resize_frame(buf: &mut Vec<u32>, width: usize, height: usize)
    requires
        width * height <= usize::MAX,
    ensures
        final(buf)@ == Seq::new((width * height) as nat, |i: int| 0u32),
{
    assert(0 <= width * height) by (nonlinear_arith);
    buf.clear();
    buf.resize(width * height, 0);
    assert(buf@ =~= Seq::new((width * height) as nat, |i: int| 0u32));
}

/// The solid colour with the given red, green and blue.
pub open spec fn rgb(r: u8, g: u8, b: u8) -> u32 {
    0xFF00_0000u32 | ((r as u32) << 16) | ((g as u32) << 8) | (b as u32)
}

/// Packs red, green and blue into one solid colour.
pub fn pack_rgb(r: u8, g: u8, b: u8) -> (color: u32)
    ensures
        color == rgb(r, g, b),
{
    0xFF00_0000u32 | ((r as u32) << 16) | ((g as u32) << 8) | (b as u32)
}

/// A packed colour keeps its channels apart: each can be read back as it was
/// put in, and the colour is solid.
pub proof fn lemma_rgb_channels(r: u8, g: u8, b: u8)
    ensures
        (rgb(r, g, b) >> 24) & 0xff == 0xff,
        (rgb(r, g, b) >> 16) & 0xff == r,
        (rgb(r, g, b) >> 8) & 0xff == g,
        rgb(r, g, b) & 0xff == b,
{
    let c = rgb(r, g, b);
    assert((c >> 24) & 0xff == 0xff && (c >> 16) & 0xff == r && (c >> 8) & 0xff == g && c & 0xff
        == b) by (bit_vector)
        requires
            c == 0xFF00_0000u32 | ((r as u32) << 16) | ((g as u32) << 8) | (b as u32),
    ;
}

/// Whether column `x`, row `y` lies in the rectangle from `x_lo` to `x_hi` and
/// from `y_lo` to `y_hi`, all four included.
pub open spec fn in_rect(x: int, y: int, x_lo: int, x_hi: int, y_lo: int, y_hi: int) -> bool {
    x_lo <= x <= x_hi && y_lo <= y <= y_hi
}

/// Painting one selection and then another in the same colour paints both at once.
pub proof fn lemma_paint_twice(
    buf: Seq<u32>,
    first: spec_fn(int, int) -> bool,
    second: spec_fn(int, int) -> bool,
    color: u32,
    width: int,
    height: int,
)
    ensures
        paint(paint(buf, first, color, width, height), second, color, width, height) == paint(
            buf,
            |x: int, y: int| first(x, y) || second(x, y),
            color,
            width,
            height,
        ),
{
    assert(paint(paint(buf, first, color, width, height), second, color, width, height) =~= paint(
        buf,
        |x: int, y: int| first(x, y) || second(x, y),
        color,
        width,
        height,
    ));
}

/// Two selections that agree on every pixel of the frame paint the same buffer.
pub proof fn lemma_paint_same(
    buf: Seq<u32>,
    first: spec_fn(int, int) -> bool,
    second: spec_fn(int, int) -> bool,
    color: u32,
    width: int,
    height: int,
)
    requires
        forall|x: int, y: int|
            in_frame(x, y, width, height) ==> #[trigger] first(x, y) == #[trigger] second(x, y),
    ensures
        paint(buf, first, color, width, height) == paint(buf, second, color, width, height),
{
    let a = paint(buf, first, color, width, height);
    let b = paint(buf, second, color, width, height);
    assert forall|i: int| 0 <= i < buf.len() implies a[i] == b[i] by {
        if width > 0 && i < width * height {
            lemma_cell_in_frame(i, width, height);
            assert(first(i % width, i / width) == second(i % width, i / width));
        }
    }
    assert(a =~= b);
}

/// Fills the part of the frame that lies in the rectangle from `x_lo` to `x_hi`
/// and from `y_lo` to `y_hi`, all four included.
pub fn fill_rect(
    buf: &mut [u32],
    x_lo: i128,
    x_hi: i128,
    y_lo: i128,
    y_hi: i128,
    color: u32,
    width: usize,
    height: usize,
)
    requires
        old(buf)@.len() >= width * height,
    ensures
        final(buf)@ == paint(
            old(buf)@,
            |x: int, y: int| in_rect(x, y, x_lo as int, x_hi as int, y_lo as int, y_hi as int),
            color,
            width as int,
            height as int,
        ),
{
    let len = buf.len();
    let ghost w = width as int;
    let ghost h = height as int;
    let ghost goal = paint(
        old(buf)@,
        |x: int, y: int| in_rect(x, y, x_lo as int, x_hi as int, y_lo as int, y_hi as int),
        color,
        w,
        h,
    );
    let first_col: i128 = if x_lo < 0 {
        0
    } else {
        x_lo
    };
    let last_col: i128 = if x_hi >= width as i128 {
        width as i128 - 1
    } else {
        x_hi
    };
    let first_row: i128 = if y_lo < 0 {
        0
    } else {
        y_lo
    };
    let last_row: i128 = if y_hi >= height as i128 {
        height as i128 - 1
    } else {
        y_hi
    };
    if first_col > last_col || first_row > last_row {
        proof {
            assert forall|i: int| 0 <= i < len implies buf@[i] == goal[i] by {
                if w > 0 && i < w * h {
                    lemma_cell_in_frame(i, w, h);
                }
            }
            assert(buf@ =~= goal);
        }
        return ;
    }
    let first = first_col as usize;
    let last = last_col as usize;
    let end = last_row as usize;
    let mut y: usize = first_row as usize;
    proof {
        assert forall|i: int| 0 <= i < len implies #[trigger] buf@[i] == if i < w * h && i / w < y {
            goal[i]
        } else {
            old(buf)@[i]
        } by {
            if i < w * h {
                lemma_cell_in_frame(i, w, h);
            }
        }
    }
    while y <= end
        invariant
            first_row <= y <= end + 1,
            end < height,
            first <= last < width,
            first == first_col,
            last == last_col,
            end == last_row,
            first_col == (if x_lo < 0 { 0int } else { x_lo as int }),
            last_col == (if x_hi >= width { width - 1 } else { x_hi as int }),
            first_row == (if y_lo < 0 { 0int } else { y_lo as int }),
            last_row == (if y_hi >= height { height - 1 } else { y_hi as int }),
            w == width,
            h == height,
            buf@.len() == len,
            len == old(buf)@.len(),
            len >= width * height,
            goal == paint(
                old(buf)@,
                |x: int, y: int| in_rect(x, y, x_lo as int, x_hi as int, y_lo as int, y_hi as int),
                color,
                w,
                h,
            ),
            forall|i: int|
                0 <= i < len ==> #[trigger] buf@[i] == if i < w * h && i / w < y {
                    goal[i]
                } else {
                    old(buf)@[i]
                },
        decreases end + 1 - y,
    {
        proof {
            lemma_index_bound(first as int, y as int, w, h);
            lemma_index_bound(last as int, y as int, w, h);
        }
        let ghost before = buf@;
        fill_cells(buf, y * width + first, last - first + 1, color);
        proof {
            assert forall|i: int| 0 <= i < len implies #[trigger] buf@[i] == if i < w * h && i / w < y
                + 1 {
                goal[i]
            } else {
                old(buf)@[i]
            } by {
                if i < w * h {
                    lemma_cell_in_frame(i, w, h);
                    let cx = i % w;
                    let cy = i / w;
                    if cy != y {
                        assert(i < y * w || i >= y * w + w) by (nonlinear_arith)
                            requires
                                i == cy * w + cx,
                                0 <= cx < w,
                                cy != y,
                        ;
                    }
                }
            }
        }
        y = y + 1;
    }
    proof {
        assert forall|i: int| 0 <= i < len implies buf@[i] == goal[i] by {
            if i < w * h {
                lemma_cell_in_frame(i, w, h);
            }
        }
        assert(buf@ =~= goal);
    }
}

} // verus!
