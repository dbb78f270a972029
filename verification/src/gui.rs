//! The overlay drawn last over each frame: crosshair, logo, countdown and frame rate.

use vstd::prelude::*;
use vstd::string::*;
use crate::frame::{fill_rect, in_rect, lemma_paint_same, lemma_paint_twice, paint};
use crate::{error::EngineError, png_source::{holds_sheet, is_refusal, is_sheet, png_decoded, Decoded}};
use crate::raster::trunc_div;
use crate::texture::{blitted, draw_texture_optimized, Texture};

verus! {

/// The distance in pixels from one digit of the countdown to the next.
pub const TIMER_DIGIT_WIDTH: usize = 30;

/// The distance in pixels from one digit of the frame rate to the next.
pub const FPS_DIGIT_WIDTH: usize = 17;

/// The shape of the crosshair: four arms round the centre of the frame.
#[derive(Clone, Copy, Debug, PartialEq, Eq, Structural)]
pub struct Crosshair {
    pub color: u32,
    pub line_length: i32,
    pub line_thickness: i32,
    pub gap: i32,
}

/// Whether the offset `d` from the centre lies on an arm: beyond the gap, and no
/// farther than the gap and the arm's length.
pub open spec fn on_arm(d: int, line_length: int, gap: int) -> bool {
    gap + 1 <= d <= gap + line_length
}

/// Whether the offset `d` across an arm lies within its thickness: at most half
/// the thickness, rounded toward zero, to either side.
pub open spec fn in_band(d: int, line_thickness: int) -> bool {
    -trunc_div(line_thickness, 2) <= d <= trunc_div(line_thickness, 2)
}

/// Whether the crosshair of a frame of `width` by `height` pixels holds the pixel
/// at column `x`, row `y`.
pub open spec fn crosshair_covers(
    line_length: int,
    line_thickness: int,
    gap: int,
    width: int,
    height: int,
    x: int,
    y: int,
) -> bool {
    let dx = x - width / 2;
    let dy = y - height / 2;
    ||| ((on_arm(dx, line_length, gap) || on_arm(-dx, line_length, gap)) && in_band(
        dy,
        line_thickness,
    ))
    ||| ((on_arm(dy, line_length, gap) || on_arm(-dy, line_length, gap)) && in_band(
        dx,
        line_thickness,
    ))
}

/// Draws a crosshair of the given colour and shape round the centre of the frame.
pub fn render_crosshair(
    buf: &mut [u32],
    color: u32,
    line_length: i32,
    line_thickness: i32,
    gap: i32,
    width: usize,
    height: usize,
)
    requires
        old(buf)@.len() >= width * height,
    ensures
        final(buf)@ == paint(
            old(buf)@,
            |x: int, y: int|
                crosshair_covers(
                    line_length as int,
                    line_thickness as int,
                    gap as int,
                    width as int,
                    height as int,
                    x,
                    y,
                ),
            color,
            width as int,
            height as int,
        ),
{
    let center_x: i128 = (width / 2) as i128;
    let center_y: i128 = (height / 2) as i128;
    let half: i128 = if line_thickness >= 0 {
        (line_thickness / 2) as i128
    } else {
        -(((-(line_thickness as i64)) / 2) as i128)
    };
    let near: i128 = gap as i128 + 1;
    let far: i128 = gap as i128 + line_length as i128;
    let ghost w = width as int;
    let ghost h = height as int;
    let ghost start = buf@;
    let ghost right = |x: int, y: int|
        in_rect(x, y, center_x + near, center_x + far, center_y - half, center_y + half);
    let ghost left = |x: int, y: int|
        in_rect(x, y, center_x - far, center_x - near, center_y - half, center_y + half);
    let ghost below = |x: int, y: int|
        in_rect(x, y, center_x - half, center_x + half, center_y + near, center_y + far);
    let ghost above = |x: int, y: int|
        in_rect(x, y, center_x - half, center_x + half, center_y - far, center_y - near);

    fill_rect(
        buf,
        center_x + near,
        center_x + far,
        center_y - half,
        center_y + half,
        color,
        width,
        height,
    );
    fill_rect(
        buf,
        center_x - far,
        center_x - near,
        center_y - half,
        center_y + half,
        color,
        width,
        height,
    );
    fill_rect(
        buf,
        center_x - half,
        center_x + half,
        center_y + near,
        center_y + far,
        color,
        width,
        height,
    );
    fill_rect(
        buf,
        center_x - half,
        center_x + half,
        center_y - far,
        center_y - near,
        color,
        width,
        height,
    );
    proof {
        let across = |x: int, y: int| right(x, y) || left(x, y);
        let three = |x: int, y: int| across(x, y) || below(x, y);
        let all = |x: int, y: int| three(x, y) || above(x, y);
        let shape = |x: int, y: int|
            crosshair_covers(
                line_length as int,
                line_thickness as int,
                gap as int,
                w,
                h,
                x,
                y,
            );
        lemma_paint_twice(start, right, left, color, w, h);
        lemma_paint_twice(start, across, below, color, w, h);
        lemma_paint_twice(start, three, above, color, w, h);
        lemma_paint_same(start, all, shape, color, w, h);
    }
}

/// Draws the crosshair `crosshair` round the centre of the frame.
pub fn draw_crosshair(buf: &mut [u32], crosshair: Crosshair, width: usize, height: usize)
    requires
        old(buf)@.len() >= width * height,
    ensures
        final(buf)@ == paint(
            old(buf)@,
            |x: int, y: int|
                crosshair_covers(
                    crosshair.line_length as int,
                    crosshair.line_thickness as int,
                    crosshair.gap as int,
                    width as int,
                    height as int,
                    x,
                    y,
                ),
            crosshair.color,
            width as int,
            height as int,
        ),
{
    render_crosshair(
        buf,
        crosshair.color,
        crosshair.line_length,
        crosshair.line_thickness,
        crosshair.gap,
        width,
        height,
    );
}

/// The decimal digits of `n`, the most significant first.
pub open spec fn decimal(n: nat) -> Seq<u8>
    decreases n,
{
    if n < 10 {
        seq![n as u8]
    } else {
        decimal(n / 10).push((n % 10) as u8)
    }
}

/// The number that the digits write, the most significant first.
pub open spec fn digits_value(digits: Seq<u8>) -> nat
    decreases digits.len(),
{
    if digits.len() == 0 {
        0
    } else {
        10 * digits_value(digits.drop_last()) + digits.last() as nat
    }
}

/// The decimal digits of a number write that number.
pub proof fn lemma_decimal_value(n: nat)
    ensures
        digits_value(decimal(n)) == n,
    decreases n,
{
    let digits = decimal(n);
    if n < 10 {
        assert(digits.drop_last() =~= Seq::<u8>::empty());
        assert(digits_value(digits.drop_last()) == 0);
        assert(digits.last() == n as u8);
    } else {
        lemma_decimal_value(n / 10);
        assert(digits.drop_last() =~= decimal(n / 10));
        assert(digits.last() == (n % 10) as u8);
    }
}

/// The first digit of a number of more than one digit is not zero.
pub proof fn lemma_decimal_leading(n: nat)
    ensures
        decimal(n).len() > 1 ==> decimal(n)[0] != 0,
        n > 0 ==> decimal(n)[0] != 0,
    decreases n,
{
    if n >= 10 {
        lemma_decimal_leading(n / 10);
        lemma_decimal_digits(n / 10);
    }
}

/// The character that shows the digit `d`.
pub open spec fn digit_char(d: u8) -> char {
    (d + 48) as char
}

/// `n` written in decimal.
pub open spec fn decimal_text(n: nat) -> Seq<char> {
    Seq::new(decimal(n).len(), |k: int| digit_char(decimal(n)[k]))
}

/// Whether every character of `s` is one of `0` to `9`.
pub open spec fn is_digit_text(s: Seq<char>) -> bool {
    forall|k: int| 0 <= k < s.len() ==> '0' <= #[trigger] s[k] && s[k] <= '9'
}

/// The digits that the characters of `s` show.
pub open spec fn digit_values(s: Seq<char>) -> Seq<u8> {
    Seq::new(s.len(), |k: int| (s[k] as u32 - 48) as u8)
}

/// Whether every entry of `digits` is below ten.
pub open spec fn all_digits(digits: Seq<u8>) -> bool {
    forall|k: int| 0 <= k < digits.len() ==> #[trigger] digits[k] < 10
}

/// A number has at least one digit and at most twenty, each below ten.
pub proof fn lemma_decimal_digits(n: nat)
    ensures
        decimal(n).len() >= 1,
        all_digits(decimal(n)),
        n <= u64::MAX ==> decimal(n).len() <= 20,
        n <= u32::MAX ==> decimal(n).len() <= 10,
    decreases n,
{
    if n >= 10 {
        lemma_decimal_digits(n / 10);
        if n <= u64::MAX {
            lemma_decimal_length(n, 20);
        }
        if n <= u32::MAX {
            lemma_decimal_length(n, 10);
        }
    }
}

/// The number below which every number has at most `len` digits: ten to the
/// power `len`.
pub open spec fn ten_to(len: nat) -> nat
    decreases len,
{
    if len == 0 {
        1
    } else {
        10 * ten_to((len - 1) as nat)
    }
}

proof fn lemma_decimal_short(n: nat, len: nat)
    requires
        len >= 1,
        n < ten_to(len),
    ensures
        decimal(n).len() <= len,
    decreases n,
{
    if n >= 10 {
        if len == 1 {
            assert(ten_to(1) == 10 * ten_to(0));
        } else {
            lemma_decimal_short(n / 10, (len - 1) as nat);
        }
    }
}

proof fn lemma_decimal_length(n: nat, len: nat)
    requires
        (len == 20 && n <= u64::MAX) || (len == 10 && n <= u32::MAX),
    ensures
        decimal(n).len() <= len,
{
    assert(ten_to(10) == 10_000_000_000) by {
        reveal_with_fuel(ten_to, 11);
    }
    assert(ten_to(20) == 100_000_000_000_000_000_000) by {
        reveal_with_fuel(ten_to, 21);
    }
    lemma_decimal_short(n, len);
}

/// The decimal digits of `n`, the most significant first.
pub fn decimal_digits(n: u64) -> (digits: Vec<u8>)
    ensures
        digits@ == decimal(n as nat),
        all_digits(digits@),
        1 <= digits@.len() <= 20,
    decreases n,
{
    proof {
        lemma_decimal_digits(n as nat);
    }
    if n < 10 {
        let mut digits: Vec<u8> = Vec::new();
        digits.push(n as u8);
        assert(digits@ =~= decimal(n as nat));
        digits
    } else {
        let mut digits = decimal_digits(n / 10);
        digits.push((n % 10) as u8);
        digits
    }
}

/// The frame after the glyphs for `digits` were laid over it along the top edge,
/// the first at column `x0` and each next one `step` pixels to the right.
pub open spec fn digits_drawn(
    buf: Seq<u32>,
    width: int,
    height: int,
    glyphs: Seq<Texture>,
    digits: Seq<u8>,
    x0: int,
    step: int,
) -> Seq<u32>
    decreases digits.len(),
{
    if digits.len() == 0 {
        buf
    } else {
        blitted(
            digits_drawn(buf, width, height, glyphs, digits.drop_last(), x0, step),
            width,
            height,
            &glyphs[digits.last() as int],
            x0 + (digits.len() - 1) * step,
            0,
        )
    }
}

/// Lays the glyphs for `digits` over the frame along its top edge, the first at
/// column `x0` and each next one `step` pixels to the right.
pub fn draw_digits(
    buffer: &mut [u32],
    width: usize,
    height: usize,
    glyphs: &[Texture],
    digits: &Vec<u8>,
    x0: usize,
    step: usize,
)
    requires
        glyphs@.len() >= 10,
        all_digits(digits@),
        x0 + digits@.len() * step <= usize::MAX,
    ensures
        final(buffer)@ == digits_drawn(
            old(buffer)@,
            width as int,
            height as int,
            glyphs@,
            digits@,
            x0 as int,
            step as int,
        ),
{
    let mut i: usize = 0;
    while i < digits.len()
        invariant
            i <= digits.len(),
            glyphs@.len() >= 10,
            all_digits(digits@),
            x0 + digits@.len() * step <= usize::MAX,
            buffer@ == digits_drawn(
                old(buffer)@,
                width as int,
                height as int,
                glyphs@,
                digits@.take(i as int),
                x0 as int,
                step as int,
            ),
        decreases digits.len() - i,
    {
        let digit = digits[i] as usize;
        proof {
            assert(digits@.take(i + 1).drop_last() =~= digits@.take(i as int));
            assert(digits@.take(i + 1).last() == digits@[i as int]);
            assert(0 <= i * step <= digits@.len() * step) by (nonlinear_arith)
                requires
                    0 <= i <= digits@.len(),
                    0 <= step,
            ;
        }
        draw_texture_optimized(buffer, width, height, &glyphs[digit], x0 + i * step, 0);
        i = i + 1;
    }
    proof {
        assert(digits@.take(i as int) =~= digits@);
    }
}

/// The countdown shown at the top of the frame.
#[derive(Clone, Copy, Debug, PartialEq, Eq, Structural)]
pub struct Timer {
    pub minutes: u64,
    pub seconds: u64,
}

/// The sprites of the overlay, cut from one sheet.
#[derive(Debug)]
pub struct GUI {
    pub logo: Texture,
    pub digits_timer: [Texture; 10],
    pub digits_fps: [Texture; 10],
    pub colon: Texture,
}

/// The frame after the countdown was drawn: the colon left of the centre, the
/// minutes to its left, and the two digits of the seconds to its right.
pub open spec fn timer_drawn(
    buf: Seq<u32>,
    width: int,
    height: int,
    timer: Timer,
    gui: &GUI,
) -> Seq<u32> {
    let center = width / 2;
    let minutes = decimal(timer.minutes as nat);
    let with_colon = blitted(buf, width, height, &gui.colon, center - 9, 0);
    let with_minutes = digits_drawn(
        with_colon,
        width,
        height,
        gui.digits_timer@,
        minutes,
        center - 9 - minutes.len() * TIMER_DIGIT_WIDTH,
        TIMER_DIGIT_WIDTH as int,
    );
    let with_tens = blitted(
        with_minutes,
        width,
        height,
        &gui.digits_timer@[(timer.seconds / 10) as int],
        center + 9,
        0,
    );
    blitted(
        with_tens,
        width,
        height,
        &gui.digits_timer@[(timer.seconds % 10) as int],
        center + 9 + 30,
        0,
    )
}

impl Timer {
    /// A countdown at zero.
    pub fn new() -> (t: Timer)
        ensures
            t.minutes == 0,
            t.seconds == 0,
    {
        Timer { minutes: 0, seconds: 0 }
    }

    /// Moves the whole minutes held in `seconds` over to `minutes`, which forgets
    /// what it held before.
    pub fn update_mins(&mut self)
        ensures
            final(self).minutes == old(self).seconds / 60,
            final(self).seconds == old(self).seconds % 60,
    {
        self.minutes = self.seconds / 60;
        self.seconds = self.seconds - self.minutes * 60;
    }

    /// Shows the time that is left of a run, counted in whole seconds and rounded
    /// up to the next one.
    pub fn show_remaining(&mut self, remaining_ms: u64)
        ensures
            final(self).minutes == (remaining_ms / 1000 + 1) / 60,
            final(self).seconds == (remaining_ms / 1000 + 1) % 60,
    {
        self.seconds = remaining_ms / 1000 + 1;
        self.update_mins();
    }

    /// Draws the countdown along the top edge of the frame, round its centre.
    pub fn draw_timer(&self, pixel_buffer: &mut [u32], width: usize, height: usize, gui: &GUI)
        requires
            self.seconds < 100,
            width / 2 >= 9 + decimal(self.minutes as nat).len() * TIMER_DIGIT_WIDTH,
        ensures
            final(pixel_buffer)@ == timer_drawn(
                old(pixel_buffer)@,
                width as int,
                height as int,
                *self,
                gui,
            ),
    {
        let center_width = width / 2;
        draw_texture_optimized(pixel_buffer, width, height, &gui.colon, center_width - 9, 0);

        let minutes = decimal_digits(self.minutes);
        let first = center_width - 9 - minutes.len() * TIMER_DIGIT_WIDTH;
        draw_digits(
            pixel_buffer,
            width,
            height,
            gui.digits_timer.as_slice(),
            &minutes,
            first,
            TIMER_DIGIT_WIDTH,
        );

        let seconds_last_digit = (self.seconds % 10) as usize;
        let seconds_front_digit = (self.seconds as usize - seconds_last_digit) / 10;
        draw_texture_optimized(
            pixel_buffer,
            width,
            height,
            &gui.digits_timer[seconds_front_digit],
            center_width + 9,
            0,
        );
        draw_texture_optimized(
            pixel_buffer,
            width,
            height,
            &gui.digits_timer[seconds_last_digit],
            center_width + 9 + 30,
            0,
        );
    }
}

/// The frame counter and the frame rate last shown.
///
/// `last_fps_display` is a reading of a steady clock in milliseconds.
#[derive(Debug)]
pub struct FPS {
    pub total_frame_count: u32,
    pub fps_str: String,
    pub interval_frame_count: u32,
    pub last_fps_display: u64,
    pub width_px: usize,
}

fn digit_text(d: u8) -> (s: &'static str)
    requires
        d < 10,
    ensures
        s@ == seq![digit_char(d)],
{
    proof {
        reveal_strlit("0");
        reveal_strlit("1");
        reveal_strlit("2");
        reveal_strlit("3");
        reveal_strlit("4");
        reveal_strlit("5");
        reveal_strlit("6");
        reveal_strlit("7");
        reveal_strlit("8");
        reveal_strlit("9");
    }
    let s = match d {
        0 => "0",
        1 => "1",
        2 => "2",
        3 => "3",
        4 => "4",
        5 => "5",
        6 => "6",
        7 => "7",
        8 => "8",
        _ => "9",
    };
    assert(s@ =~= seq![digit_char(d)]);
    s
}

/// `n` written in decimal.
pub fn decimal_string(n: u64) -> (s: String)
    ensures
        s@ == decimal_text(n as nat),
        is_digit_text(s@),
        digit_values(s@) == decimal(n as nat),
{
    let digits = decimal_digits(n);
    let mut s = String::from_str("");
    proof {
        reveal_strlit("");
    }
    let mut i: usize = 0;
    while i < digits.len()
        invariant
            i <= digits.len(),
            all_digits(digits@),
            s@.len() == i,
            forall|k: int| 0 <= k < i ==> #[trigger] s@[k] == digit_char(digits@[k]),
        decreases digits.len() - i,
    {
        s.append(digit_text(digits[i]));
        i = i + 1;
    }
    proof {
        assert(s@ =~= decimal_text(n as nat));
        assert(digit_values(s@) =~= decimal(n as nat));
    }
    s
}

impl FPS {
    /// Whether the text shown is a number and `width_px` is the room it takes.
    pub open spec fn is_consistent(&self) -> bool {
        &&& is_digit_text(self.fps_str@)
        &&& self.width_px == FPS_DIGIT_WIDTH * self.fps_str@.len()
    }

    /// A counter that has seen no frame, shows `0`, and was last shown at `now_ms`.
    pub fn init(now_ms: u64) -> (f: FPS)
        ensures
            f.total_frame_count == 0,
            f.interval_frame_count == 0,
            f.fps_str@ == seq!['0'],
            f.last_fps_display == now_ms,
            f.width_px == FPS_DIGIT_WIDTH,
            f.is_consistent(),
    {
        proof {
            reveal_strlit("0");
        }
        let fps_str = String::from_str("0");
        assert(fps_str@ =~= seq!['0']);
        FPS {
            total_frame_count: 0,
            fps_str,
            interval_frame_count: 0,
            last_fps_display: now_ms,
            width_px: FPS_DIGIT_WIDTH,
        }
    }

    /// Counts one more frame, both in all and since the rate was last shown.
    pub fn count_frame(&mut self)
        requires
            old(self).total_frame_count < u32::MAX,
            old(self).interval_frame_count < u32::MAX,
        ensures
            final(self).total_frame_count == old(self).total_frame_count + 1,
            final(self).interval_frame_count == old(self).interval_frame_count + 1,
            final(self).fps_str == old(self).fps_str,
            final(self).last_fps_display == old(self).last_fps_display,
            final(self).width_px == old(self).width_px,
    {
        self.total_frame_count += 1;
        self.interval_frame_count += 1;
    }

    /// Whether a second or more has passed at `now_ms` since the rate was last shown.
    pub open spec fn is_due(&self, now_ms: u64) -> bool {
        now_ms - self.last_fps_display >= 1000
    }

    /// Once a second has passed since the rate was last shown, shows the number
    /// of frames counted since then and starts counting anew; before that,
    /// changes nothing.
    pub fn update_str(&mut self, now_ms: u64)
        ensures
            old(self).is_due(now_ms) ==> {
                &&& final(self).fps_str@ == decimal_text(old(self).interval_frame_count as nat)
                &&& final(self).last_fps_display == now_ms
                &&& final(self).interval_frame_count == 0
                &&& final(self).width_px == FPS_DIGIT_WIDTH * final(self).fps_str@.len()
                &&& final(self).total_frame_count == old(self).total_frame_count
                &&& final(self).is_consistent()
            },
            !old(self).is_due(now_ms) ==> *final(self) == *old(self),
    {
        if now_ms >= self.last_fps_display && now_ms - self.last_fps_display >= 1000 {
            proof {
                lemma_decimal_digits(self.interval_frame_count as nat);
            }
            self.fps_str = decimal_string(self.interval_frame_count as u64);
            self.last_fps_display = now_ms;
            self.interval_frame_count = 0;
            self.width_px = FPS_DIGIT_WIDTH * self.fps_str.as_str().unicode_len();
        }
    }
}

/// Draws the frame rate in the top right corner of the frame, one glyph of
/// `texture` for each digit.
pub fn draw_fps(fps: &FPS, pixel_buffer: &mut [u32], width: usize, height: usize, texture: &[Texture])
    requires
        is_digit_text(fps.fps_str@),
        texture@.len() >= 10,
        fps.width_px <= width,
        width - fps.width_px + fps.fps_str@.len() * FPS_DIGIT_WIDTH <= usize::MAX,
    ensures
        final(pixel_buffer)@ == digits_drawn(
            old(pixel_buffer)@,
            width as int,
            height as int,
            texture@,
            digit_values(fps.fps_str@),
            width - fps.width_px,
            FPS_DIGIT_WIDTH as int,
        ),
{
    let text = fps.fps_str.as_str();
    let count = text.unicode_len();
    let mut digits: Vec<u8> = Vec::new();
    let mut i: usize = 0;
    while i < count
        invariant
            i <= count,
            count == text@.len(),
            text@ == fps.fps_str@,
            is_digit_text(text@),
            digits@ == digit_values(text@.take(i as int)),
        decreases count - i,
    {
        let c = text.get_char(i);
        digits.push((c as u32 - 48) as u8);
        proof {
            assert(digits@ =~= digit_values(text@.take(i + 1)));
        }
        i = i + 1;
    }
    proof {
        assert(text@.take(i as int) =~= text@);
    }
    draw_digits(pixel_buffer, width, height, texture, &digits, width - fps.width_px, FPS_DIGIT_WIDTH);
}

/// The frame after the sprites of the overlay were drawn: the logo in the top left
/// corner, then the countdown, then the frame rate.
pub open spec fn gui_drawn(
    buf: Seq<u32>,
    width: int,
    height: int,
    gui: &GUI,
    timer: Timer,
    fps: &FPS,
) -> Seq<u32> {
    digits_drawn(
        timer_drawn(blitted(buf, width, height, &gui.logo, 0, 0), width, height, timer, gui),
        width,
        height,
        gui.digits_fps@,
        digit_values(fps.fps_str@),
        width - fps.width_px,
        FPS_DIGIT_WIDTH as int,
    )
}

/// Draws the sprites of the overlay over the finished frame.
pub fn draw_gui(
    pixel_buffer: &mut [u32],
    width: usize,
    height: usize,
    gui: &GUI,
    timer: &Timer,
    fps: &FPS,
)
    requires
        timer.seconds < 100,
        width / 2 >= 9 + decimal(timer.minutes as nat).len() * TIMER_DIGIT_WIDTH,
        is_digit_text(fps.fps_str@),
        fps.width_px <= width,
        width - fps.width_px + fps.fps_str@.len() * FPS_DIGIT_WIDTH <= usize::MAX,
    ensures
        final(pixel_buffer)@ == gui_drawn(
            old(pixel_buffer)@,
            width as int,
            height as int,
            gui,
            *timer,
            fps,
        ),
{
    draw_texture_optimized(pixel_buffer, width, height, &gui.logo, 0, 0);
    timer.draw_timer(pixel_buffer, width, height, gui);
    draw_fps(fps, pixel_buffer, width, height, gui.digits_fps.as_slice());
}

/// Whether `part` is the rectangle of `sheet` from column `start_x` to just
/// before `end_x` and from row `start_y` to just before `end_y`.
pub open spec fn is_region(
    part: &Texture,
    sheet: &Texture,
    start_x: int,
    start_y: int,
    end_x: int,
    end_y: int,
) -> bool {
    &&& part.width == end_x - start_x
    &&& part.height == end_y - start_y
    &&& part.is_full()
    &&& forall|dx: int, dy: int|
        0 <= dx < part.width && 0 <= dy < part.height ==> #[trigger] part.texel(dx, dy)
            == sheet.texel(start_x + dx, start_y + dy)
}

/// The width of the glyph for digit `d` of the countdown on the sheet.
pub open spec fn timer_glyph_width(d: int) -> int {
    if d == 4 {
        38
    } else {
        33
    }
}

fn cut(sheet: &Texture, start_x: usize, start_y: usize, end_x: usize, end_y: usize) -> (part: Texture)
    requires
        start_x <= end_x <= 1000,
        start_y <= end_y <= 1000,
    ensures
        is_region(&part, sheet, start_x as int, start_y as int, end_x as int, end_y as int),
{
    assert((end_x - start_x) * (end_y - start_y) <= 1000 * 1000) by (nonlinear_arith)
        requires
            0 <= end_x - start_x <= 1000,
            0 <= end_y - start_y <= 1000,
    ;
    sheet.extract_region(start_x, start_y, end_x, end_y)
}

impl GUI {
    /// Whether the sprites are cut from `sheet`: the logo from its top left
    /// corner, the ten digits of the frame rate in a row below it, the ten digits
    /// of the countdown in a column below those, and the colon last.
    pub open spec fn is_cut_from(&self, sheet: &Texture) -> bool {
        &&& is_region(&self.logo, sheet, 0, 0, 222, 50)
        &&& is_region(&self.colon, sheet, 0, 815, 18, 865)
        &&& forall|d: int|
            0 <= d < 10 ==> is_region(
                &#[trigger] self.digits_timer@[d],
                sheet,
                0,
                75 + 75 * d,
                timer_glyph_width(d),
                130 + 75 * d,
            )
        &&& forall|d: int|
            0 <= d < 10 ==> is_region(
                &#[trigger] self.digits_fps@[d],
                sheet,
                17 * d,
                45,
                17 * d + 17,
                70,
            )
    }

    /// The sprites of the overlay, cut from the sheet held in the bytes of a PNG
    /// file. Fails as `Texture::load_from_png` does, and not otherwise.
    pub fn load_gui(png_bytes: Vec<u8>) -> (r: Result<GUI, EngineError>)
        ensures
            GUI::is_overlay_from(r, png_decoded(png_bytes@, usize::BITS as nat)),
    {
        match Texture::load_from_png(png_bytes) {
            Ok(sheet) => {
                let r: Result<GUI, EngineError> = Ok(GUI::from_sheet(&sheet));
                assert(r->Ok_0.is_cut_from(&sheet));
                r
            },
            Err(cause) => Err(cause),
        }
    }

    /// Whether `r` is what loading the overlay gives for the decoder's answer
    /// `decoded`: the sprites cut from the sheet that the answer holds, or the
    /// refusal owed to an answer that holds none.
    pub open spec fn is_overlay_from(r: Result<GUI, EngineError>, decoded: Decoded) -> bool {
        if is_sheet(decoded) {
            r is Ok && exists|sheet: Texture|
                holds_sheet(sheet, decoded) && (#[trigger] r->Ok_0.is_cut_from(&sheet))
        } else {
            r matches Err(failure) && is_refusal(failure, decoded)
        }
    }

    /// Cuts the sprites of the overlay out of their sheet.
    pub fn from_sheet(sheet: &Texture) -> (gui: GUI)
        ensures
            gui.is_cut_from(sheet),
    {
        let digits_timer = [
            cut(sheet, 0, 75, 33, 130),
            cut(sheet, 0, 150, 33, 205),
            cut(sheet, 0, 225, 33, 280),
            cut(sheet, 0, 300, 33, 355),
            cut(sheet, 0, 375, 38, 430),
            cut(sheet, 0, 450, 33, 505),
            cut(sheet, 0, 525, 33, 580),
            cut(sheet, 0, 600, 33, 655),
            cut(sheet, 0, 675, 33, 730),
            cut(sheet, 0, 750, 33, 805),
        ];
        let digits_fps = [
            cut(sheet, 0, 45, 17, 70),
            cut(sheet, 17, 45, 34, 70),
            cut(sheet, 34, 45, 51, 70),
            cut(sheet, 51, 45, 68, 70),
            cut(sheet, 68, 45, 85, 70),
            cut(sheet, 85, 45, 102, 70),
            cut(sheet, 102, 45, 119, 70),
            cut(sheet, 119, 45, 136, 70),
            cut(sheet, 136, 45, 153, 70),
            cut(sheet, 153, 45, 170, 70),
        ];
        GUI {
            logo: cut(sheet, 0, 0, 222, 50),
            digits_timer,
            digits_fps,
            colon: cut(sheet, 0, 815, 18, 865),
        }
    }
}

} // verus!
