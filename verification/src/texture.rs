//! Textures: rectangles of packed `0xAARRGGBB` texels, and how they are laid over the frame.

use vstd::prelude::*;
use vstd::arithmetic::div_mod::{lemma_fundamental_div_mod, lemma_mod_bound};
use crate::frame::lemma_index_split;

verus! {

/// A rectangle of texels, stored row by row.
///
/// Nothing ties the length of `data` to `width` and `height`: a texel that `data`
/// does not reach reads as transparent black.
#[derive(Debug)]
pub struct Texture {
    pub width: usize,
    pub height: usize,
    pub data: Vec<u32>,
}

/// The red channel of a packed colour.
pub open spec fn red(p: u32) -> u32 {
    (p >> 16) & 0xff
}

/// The green channel of a packed colour.
pub open spec fn green(p: u32) -> u32 {
    (p >> 8) & 0xff
}

/// The blue channel of a packed colour.
pub open spec fn blue(p: u32) -> u32 {
    p & 0xff
}

/// The opacity of a packed colour, from 0 (clear) to 255 (solid).
pub open spec fn opacity(p: u32) -> u32 {
    (p >> 24) & 0xff
}

/// One channel of the blend: `alpha` parts of `src` and `255 - alpha` parts of
/// `dst`, divided by 256 and rounded down.
pub open spec fn mixed(src: u32, dst: u32, alpha: u32) -> u32 {
    ((src * alpha + dst * (255 - alpha)) / 256) as u32
}

/// The colour with full opacity and the given channels.
pub open spec fn solid(r: u32, g: u32, b: u32) -> u32 {
    0xFF00_0000 | (r << 16) | (g << 8) | b
}

/// `src` laid over `dst` with opacity `alpha`: `src` itself where it is solid,
/// `dst` itself where it is clear, else a solid colour whose channels are mixed
/// one by one.
pub open spec fn blended(dst: u32, src: u32, alpha: u32) -> u32 {
    if alpha == 255 {
        src
    } else if alpha == 0 {
        dst
    } else {
        solid(
            mixed(red(src), red(dst), alpha),
            mixed(green(src), green(dst), alpha),
            mixed(blue(src), blue(dst), alpha),
        )
    }
}

/// What a cell of the frame holds after the texel `src` was laid over it.
pub open spec fn composited(dst: u32, src: u32) -> u32 {
    blended(dst, src, opacity(src))
}

proof fn lemma_split_channels(p: u32)
    by (bit_vector)
    ensures
        p & 0x00FF00FF == ((p >> 16) & 0xff) * 65536 + (p & 0xff),
        p & 0x0000FF00 == ((p >> 8) & 0xff) * 256,
        (p >> 16) & 0xff <= 255,
        (p >> 8) & 0xff <= 255,
        p & 0xff <= 255,
{
}

proof fn lemma_weighted_sum(s: int, d: int, alpha: int)
    by (nonlinear_arith)
    requires
        0 <= s <= 255,
        0 <= d <= 255,
        0 <= alpha <= 255,
    ensures
        0 <= s * alpha + d * (255 - alpha) <= 65025,
{
}

proof fn lemma_join_sums(hs: int, ls: int, hd: int, ld: int, k: int, alpha: int)
    by (nonlinear_arith)
    ensures
        (hs * k + ls) * alpha + (hd * k + ld) * (255 - alpha) == (hs * alpha + hd * (255 - alpha))
            * k + (ls * alpha + ld * (255 - alpha)),
{
}

proof fn lemma_shift_pair(r: u32, b: u32)
    by (bit_vector)
    requires
        r <= 65025,
        b <= 65025,
    ensures
        r * 65536 + b <= 0xFFFF_FFFF,
        (((r * 65536 + b) as u32) >> 8) & 0x00FF00FF == ((r / 256) << 16) | (b / 256),
        r / 256 <= 255,
        b / 256 <= 255,
{
}

proof fn lemma_shift_single(g: u32)
    by (bit_vector)
    requires
        g <= 65025,
    ensures
        g * 256 <= 0xFFFF_FFFF,
        (((g * 256) as u32) >> 8) & 0x0000FF00 == (g / 256) << 8,
{
}

proof fn lemma_pack_order(r: u32, g: u32, b: u32)
    by (bit_vector)
    ensures
        0xFF00_0000u32 | ((r << 16) | b) | (g << 8) == 0xFF00_0000u32 | (r << 16) | (g << 8) | b,
{
}

/// Lays the colour `src` over `dst` with opacity `alpha`, channel by channel.
pub fn blend_pixel_fast(dst: u32, src: u32, alpha: u32) -> (out: u32)
    requires
        alpha <= 255,
    ensures
        out == blended(dst, src, alpha),
{
    if alpha == 255 {
        return src;
    }
    if alpha == 0 {
        return dst;
    }
    let inv_alpha = 255 - alpha;

    let src_rb = src & 0x00FF00FF;
    let src_g = src & 0x0000FF00;
    let dst_rb = dst & 0x00FF00FF;
    let dst_g = dst & 0x0000FF00;
    proof {
        lemma_split_channels(src);
        lemma_split_channels(dst);
        lemma_weighted_sum(red(src) as int, red(dst) as int, alpha as int);
        lemma_weighted_sum(green(src) as int, green(dst) as int, alpha as int);
        lemma_weighted_sum(blue(src) as int, blue(dst) as int, alpha as int);
        lemma_join_sums(
            red(src) as int,
            blue(src) as int,
            red(dst) as int,
            blue(dst) as int,
            65536,
            alpha as int,
        );
        lemma_join_sums(green(src) as int, 0, green(dst) as int, 0, 256, alpha as int);
        let r_sum = (red(src) * alpha + red(dst) * (255 - alpha)) as u32;
        let g_sum = (green(src) * alpha + green(dst) * (255 - alpha)) as u32;
        let b_sum = (blue(src) * alpha + blue(dst) * (255 - alpha)) as u32;
        lemma_shift_pair(r_sum, b_sum);
        lemma_shift_single(g_sum);
        lemma_pack_order(r_sum / 256, g_sum / 256, b_sum / 256);
    }
    let rb = ((src_rb * alpha + dst_rb * inv_alpha) >> 8) & 0x00FF00FF;
    let g = ((src_g * alpha + dst_g * inv_alpha) >> 8) & 0x0000FF00;

    0xFF000000 | rb | g
}

impl Texture {
    /// The texel at column `x`, row `y`; transparent black outside the rectangle
    /// and where `data` does not reach.
    pub open spec fn texel(&self, x: int, y: int) -> u32 {
        if 0 <= x < self.width && 0 <= y < self.height && y * self.width + x < self.data@.len() {
            self.data@[y * self.width + x]
        } else {
            0
        }
    }

    /// Whether `data` holds exactly one texel for each cell of the rectangle.
    pub open spec fn is_full(&self) -> bool {
        self.data@.len() == self.width * self.height
    }

    /// A texture of the given size over texels that are already packed.
    pub fn from_argb(width: usize, height: usize, data: Vec<u32>) -> (t: Texture)
        ensures
            t.width == width,
            t.height == height,
            t.data == data,
    {
        Texture { width, height, data }
    }

    fn read(&self, x: usize, y: usize) -> (p: u32)
        ensures
            p == self.texel(x as int, y as int),
    {
        if x < self.width && y < self.height {
            assert(0 <= (y as u128) * (self.width as u128) <= 0xFFFF_FFFF_FFFF_FFFF
                * 0xFFFF_FFFF_FFFF_FFFF) by (nonlinear_arith)
                requires
                    0 <= (y as u128) <= 0xFFFF_FFFF_FFFF_FFFF,
                    0 <= (self.width as u128) <= 0xFFFF_FFFF_FFFF_FFFF,
            ;
            let idx: u128 = (y as u128) * (self.width as u128) + (x as u128);
            if idx < self.data.len() as u128 {
                self.data[idx as usize]
            } else {
                0
            }
        } else {
            0
        }
    }

    /// The part of the texture from column `start_x` to just before `end_x` and
    /// from row `start_y` to just before `end_y`, as a texture of its own. Where
    /// the part reaches beyond the texture it is transparent black.
    pub fn extract_region(&self, start_x: usize, start_y: usize, end_x: usize, end_y: usize) -> (t:
        Texture)
        requires
            start_x <= end_x,
            start_y <= end_y,
            (end_x - start_x) * (end_y - start_y) <= usize::MAX,
        ensures
            t.width == end_x - start_x,
            t.height == end_y - start_y,
            t.is_full(),
            forall|dx: int, dy: int|
                0 <= dx < t.width && 0 <= dy < t.height ==> #[trigger] t.texel(dx, dy)
                    == self.texel(start_x + dx, start_y + dy),
    {
        let width = end_x - start_x;
        let height = end_y - start_y;
        let mut data: Vec<u32> = Vec::new();
        let mut dy: usize = 0;
        while dy < height
            invariant
                dy <= height,
                width == end_x - start_x,
                height == end_y - start_y,
                width * height <= usize::MAX,
                data@.len() == dy * width,
                forall|x: int, y: int|
                    0 <= x < width && 0 <= y < dy ==> #[trigger] data@[y * width + x]
                        == self.texel(start_x + x, start_y + y),
            decreases height - dy,
        {
            let mut dx: usize = 0;
            while dx < width
                invariant
                    dx <= width,
                    dy < height,
                    width == end_x - start_x,
                    height == end_y - start_y,
                    width * height <= usize::MAX,
                    data@.len() == dy * width + dx,
                    forall|x: int, y: int|
                        0 <= x < width && 0 <= y < dy ==> #[trigger] data@[y * width + x]
                            == self.texel(start_x + x, start_y + y),
                    forall|x: int|
                        0 <= x < dx ==> #[trigger] data@[dy * width + x] == self.texel(
                            start_x + x,
                            start_y + dy,
                        ),
                decreases width - dx,
            {
                let ghost before = data@;
                let pixel = self.read(start_x + dx, start_y + dy);
                data.push(pixel);
                proof {
                    assert forall|x: int, y: int| 0 <= x < width && 0 <= y < dy implies #[trigger] data@[y
                        * width + x] == self.texel(start_x + x, start_y + y) by {
                        lemma_row_below(x, y, dy as int, width as int);
                        assert(data@[y * width + x] == before[y * width + x]);
                    }
                }
                dx = dx + 1;
            }
            proof {
                assert(dy * width + width == (dy + 1) * width) by (nonlinear_arith);
                assert forall|x: int, y: int| 0 <= x < width && 0 <= y < dy + 1 implies #[trigger] data@[y
                    * width + x] == self.texel(start_x + x, start_y + y) by {
                    if y == dy {
                    }
                }
            }
            dy = dy + 1;
        }
        let t = Texture { width, height, data };
        proof {
            assert(height * width == width * height) by (nonlinear_arith);
            assert forall|x: int, y: int| 0 <= x < t.width && 0 <= y < t.height implies #[trigger] t.texel(
                x,
                y,
            ) == self.texel(start_x + x, start_y + y) by {
                lemma_row_below(x, y, height as int, width as int);
                assert(t.data@[y * width + x] == self.texel(start_x + x, start_y + y));
            }
        }
        t
    }
}

/// The frame after `texture` was laid over it with its first texel at column `x`,
/// row `y`: every cell of the frame under a texel is composited with that texel.
pub open spec fn blitted(
    buf: Seq<u32>,
    buffer_width: int,
    buffer_height: int,
    texture: &Texture,
    x: int,
    y: int,
) -> Seq<u32> {
    Seq::new(
        buf.len(),
        |i: int|
            if buffer_width > 0 && i / buffer_width < buffer_height {
                composited(buf[i], texture.texel(i % buffer_width - x, i / buffer_width - y))
            } else {
                buf[i]
            },
    )
}

proof fn lemma_opacity_range(p: u32)
    by (bit_vector)
    ensures
        (p >> 24) & 0xff <= 255,
        (0u32 >> 24) & 0xff == 0,
{
}

/// A cell number splits into a row and a column in one way only.
pub proof fn lemma_cell_coords(i: int, width: int)
    requires
        0 <= i,
        0 < width,
    ensures
        i == (i / width) * width + i % width,
        0 <= i % width < width,
        0 <= i / width,
{
    lemma_fundamental_div_mod(i, width);
    lemma_mod_bound(i, width);
    let q = i / width;
    assert(width * q == q * width) by (nonlinear_arith);
    assert(0 <= q) by (nonlinear_arith)
        requires
            i == q * width + i % width,
            0 <= i,
            0 <= i % width < width,
    ;
}

/// Draws `texture` over the frame with its first texel at column `x`, row `y`.
/// Clear texels leave the frame as it is, solid ones replace it, and the others
/// are blended in. What falls outside the frame is cut off.
pub fn draw_texture_optimized(
    buffer: &mut [u32],
    buffer_width: usize,
    buffer_height: usize,
    texture: &Texture,
    x: usize,
    y: usize,
)
    ensures
        final(buffer)@ == blitted(
            old(buffer)@,
            buffer_width as int,
            buffer_height as int,
            texture,
            x as int,
            y as int,
        ),
{
    let len = buffer.len();
    let ghost goal = blitted(
        old(buffer)@,
        buffer_width as int,
        buffer_height as int,
        texture,
        x as int,
        y as int,
    );
    let ghost w = buffer_width as int;
    proof {
        lemma_opacity_range(0);
    }
    if x >= buffer_width || y >= buffer_height || texture.width == 0 || texture.height == 0 {
        proof {
            assert forall|i: int| 0 <= i < len implies buffer@[i] == goal[i] by {
                if w > 0 {
                    lemma_cell_coords(i, w);
                }
            }
            assert(buffer@ =~= goal);
        }
        return ;
    }
    let end_x = if texture.width >= buffer_width - x {
        buffer_width
    } else {
        x + texture.width
    };
    let end_y = if texture.height >= buffer_height - y {
        buffer_height
    } else {
        y + texture.height
    };
    let mut dy: usize = y;
    while dy < end_y
        invariant
            y <= dy <= end_y,
            x < end_x <= buffer_width,
            end_y <= buffer_height,
            end_x == x + texture.width || (end_x == buffer_width && x + texture.width >= end_x),
            end_y == y + texture.height || (end_y == buffer_height && y + texture.height >= end_y),
            w == buffer_width,
            buffer@.len() == len,
            len == old(buffer)@.len(),
            forall|i: int|
                0 <= i < len ==> #[trigger] buffer@[i] == if i / w < dy {
                    composited(old(buffer)@[i], texture.texel(i % w - x, i / w - y))
                } else {
                    old(buffer)@[i]
                },
        decreases end_y - dy,
    {
        let mut dx: usize = x;
        proof {
            lemma_opacity_range(0);
            assert forall|i: int| 0 <= i < len implies #[trigger] buffer@[i] == if i / w < dy || (i
                / w == dy && i % w < dx) {
                composited(old(buffer)@[i], texture.texel(i % w - x, i / w - y))
            } else {
                old(buffer)@[i]
            } by {
                lemma_cell_coords(i, w);
            }
        }
        while dx < end_x
            invariant
                x <= dx <= end_x,
                y <= dy < end_y,
                x < end_x <= buffer_width,
                end_y <= buffer_height,
                end_x == x + texture.width || (end_x == buffer_width && x + texture.width
                    >= end_x),
                w == buffer_width,
                buffer@.len() == len,
                len == old(buffer)@.len(),
                forall|i: int|
                    0 <= i < len ==> #[trigger] buffer@[i] == if i / w < dy || (i / w == dy && i % w
                        < dx) {
                        composited(old(buffer)@[i], texture.texel(i % w - x, i / w - y))
                    } else {
                        old(buffer)@[i]
                    },
            decreases end_x - dx,
        {
            let ghost before = buffer@;
            let src_pixel = texture.read(dx - x, dy - y);
            let alpha = (src_pixel >> 24) & 0xFF;
            proof {
                lemma_opacity_range(src_pixel);
                lemma_index_split(dx as int, dy as int, w);
            }
            assert(0 <= (dy as u128) * (buffer_width as u128) <= 0xFFFF_FFFF_FFFF_FFFF
                * 0xFFFF_FFFF_FFFF_FFFF) by (nonlinear_arith)
                requires
                    0 <= (dy as u128) <= 0xFFFF_FFFF_FFFF_FFFF,
                    0 <= (buffer_width as u128) <= 0xFFFF_FFFF_FFFF_FFFF,
            ;
            let dst_idx: u128 = (dy as u128) * (buffer_width as u128) + (dx as u128);
            if alpha > 0 && dst_idx < len as u128 {
                let at = dst_idx as usize;
                if alpha == 255 {
                    buffer[at] = src_pixel;
                } else {
                    let mixed_pixel = blend_pixel_fast(buffer[at], src_pixel, alpha);
                    buffer[at] = mixed_pixel;
                }
            }
            proof {
                assert forall|i: int| 0 <= i < len implies #[trigger] buffer@[i] == if i / w < dy
                    || (i / w == dy && i % w < dx + 1) {
                    composited(old(buffer)@[i], texture.texel(i % w - x, i / w - y))
                } else {
                    old(buffer)@[i]
                } by {
                    lemma_cell_coords(i, w);
                    if i == dst_idx {
                        assert(before[i] == old(buffer)@[i]);
                    } else {
                        assert(buffer@[i] == before[i]);
                        assert(!(i / w == dy && i % w == dx));
                    }
                }
            }
            dx = dx + 1;
        }
        proof {
            lemma_opacity_range(0);
            assert forall|i: int| 0 <= i < len implies #[trigger] buffer@[i] == if i / w < dy + 1 {
                composited(old(buffer)@[i], texture.texel(i % w - x, i / w - y))
            } else {
                old(buffer)@[i]
            } by {
                lemma_cell_coords(i, w);
            }
        }
        dy = dy + 1;
    }
    proof {
        lemma_opacity_range(0);
        assert forall|i: int| 0 <= i < len implies buffer@[i] == goal[i] by {
            lemma_cell_coords(i, w);
        }
        assert(buffer@ =~= goal);
    }
}

/// A cell of row `y` comes before the first cell of any later row `limit`.
pub proof fn lemma_row_below(x: int, y: int, limit: int, width: int)
    requires
        0 <= x < width,
        0 <= y < limit,
    ensures
        0 <= y * width + x < limit * width,
{
    assert(0 <= y * width + x < limit * width) by (nonlinear_arith)
        requires
            0 <= x < width,
            0 <= y < limit,
    ;
}

} // verus!
