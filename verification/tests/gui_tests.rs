use aim_trainer::error::EngineError;
use aim_trainer::gui::{
    decimal_digits, decimal_string, draw_crosshair, draw_digits, draw_fps, draw_gui, render_crosshair,
    Crosshair, Timer, FPS, FPS_DIGIT_WIDTH, GUI, TIMER_DIGIT_WIDTH,
};
use aim_trainer::texture::Texture;

fn dot(color: u32) -> Texture {
    Texture::from_argb(1, 1, vec![color])
}

fn glyph(d: u32) -> u32 {
    0xFF000100 + d
}

fn glyphs(base: u32) -> [Texture; 10] {
    [
        dot(base),
        dot(base + 1),
        dot(base + 2),
        dot(base + 3),
        dot(base + 4),
        dot(base + 5),
        dot(base + 6),
        dot(base + 7),
        dot(base + 8),
        dot(base + 9),
    ]
}

fn tiny_gui() -> GUI {
    GUI {
        logo: dot(0xFF00AAAA),
        digits_timer: glyphs(glyph(0)),
        digits_fps: glyphs(0xFF000200),
        colon: dot(0xFF0000CC),
    }
}

fn lit(buf: &Vec<u32>) -> Vec<(usize, u32)> {
    buf.iter().enumerate().filter(|(_, c)| **c != 0).map(|(i, c)| (i, *c)).collect()
}

#[test]
fn crosshair_with_thin_arms() {
    let mut buf = vec![0u32; 49];
    render_crosshair(&mut buf, 5, 2, 1, 0, 7, 7);
    let expect: Vec<u32> = vec![
        0, 0, 0, 0, 0, 0, 0, //
        0, 0, 0, 5, 0, 0, 0, //
        0, 0, 0, 5, 0, 0, 0, //
        0, 5, 5, 0, 5, 5, 0, //
        0, 0, 0, 5, 0, 0, 0, //
        0, 0, 0, 5, 0, 0, 0, //
        0, 0, 0, 0, 0, 0, 0,
    ];
    assert_eq!(buf, expect);
}

#[test]
fn crosshair_with_gap_and_thick_arms() {
    let mut buf = vec![0u32; 81];
    let shape = Crosshair { color: 7, line_length: 2, line_thickness: 3, gap: 1 };
    draw_crosshair(&mut buf, shape, 9, 9);
    let expect: Vec<u32> = vec![
        0, 0, 0, 0, 0, 0, 0, 0, 0, //
        0, 0, 0, 7, 7, 7, 0, 0, 0, //
        0, 0, 0, 7, 7, 7, 0, 0, 0, //
        0, 7, 7, 0, 0, 0, 7, 7, 0, //
        0, 7, 7, 0, 0, 0, 7, 7, 0, //
        0, 7, 7, 0, 0, 0, 7, 7, 0, //
        0, 0, 0, 7, 7, 7, 0, 0, 0, //
        0, 0, 0, 7, 7, 7, 0, 0, 0, //
        0, 0, 0, 0, 0, 0, 0, 0, 0,
    ];
    assert_eq!(buf, expect);
}

#[test]
fn crosshair_without_length_or_with_negative_thickness_draws_nothing() {
    let mut buf = vec![0u32; 25];
    render_crosshair(&mut buf, 5, 0, 1, 0, 5, 5);
    assert_eq!(buf, vec![0u32; 25]);
    render_crosshair(&mut buf, 5, -3, 1, 0, 5, 5);
    assert_eq!(buf, vec![0u32; 25]);
    render_crosshair(&mut buf, 5, 2, -2, 0, 5, 5);
    assert_eq!(buf, vec![0u32; 25]);
    render_crosshair(&mut buf, 5, 2, -1, 0, 5, 5);
    assert_ne!(buf, vec![0u32; 25]);
}

#[test]
fn crosshair_is_cut_to_the_frame() {
    let mut buf = vec![0u32; 9];
    render_crosshair(&mut buf, 5, i32::MAX, 1, 0, 3, 3);
    let expect: Vec<u32> = vec![
        0, 5, 0, //
        5, 0, 5, //
        0, 5, 0,
    ];
    assert_eq!(buf, expect);
    let mut buf = vec![0u32; 9];
    render_crosshair(&mut buf, 5, i32::MAX, i32::MAX, i32::MIN, 3, 3);
    assert_eq!(buf, vec![5, 5, 5, 5, 0, 5, 5, 5, 5]);
}

#[test]
fn decimal_digits_of_some_numbers() {
    assert_eq!(decimal_digits(0), vec![0]);
    assert_eq!(decimal_digits(7), vec![7]);
    assert_eq!(decimal_digits(10), vec![1, 0]);
    assert_eq!(decimal_digits(1905), vec![1, 9, 0, 5]);
    assert_eq!(
        decimal_digits(u64::MAX),
        vec![1, 8, 4, 4, 6, 7, 4, 4, 0, 7, 3, 7, 0, 9, 5, 5, 1, 6, 1, 5]
    );
}

#[test]
fn decimal_string_matches_the_standard_text() {
    for n in [0u64, 1, 9, 10, 99, 100, 144, 4294967295, u64::MAX] {
        assert_eq!(decimal_string(n), n.to_string());
    }
}

#[test]
fn timer_starts_at_zero() {
    let t = Timer::new();
    assert_eq!((t.minutes, t.seconds), (0, 0));
}

#[test]
fn timer_update_mins_moves_whole_minutes_over() {
    let mut t = Timer { minutes: 9, seconds: 125 };
    t.update_mins();
    assert_eq!((t.minutes, t.seconds), (2, 5));
    let mut t = Timer { minutes: 9, seconds: 59 };
    t.update_mins();
    assert_eq!((t.minutes, t.seconds), (0, 59));
    let mut t = Timer { minutes: 0, seconds: 60 };
    t.update_mins();
    assert_eq!((t.minutes, t.seconds), (1, 0));
}

#[test]
fn timer_shows_the_time_left_rounded_up() {
    let mut t = Timer::new();
    t.show_remaining(29_999);
    assert_eq!((t.minutes, t.seconds), (0, 30));
    t.show_remaining(0);
    assert_eq!((t.minutes, t.seconds), (0, 1));
    t.show_remaining(59_000);
    assert_eq!((t.minutes, t.seconds), (1, 0));
    t.show_remaining(89_500);
    assert_eq!((t.minutes, t.seconds), (1, 30));
}

#[test]
fn draw_digits_places_one_glyph_per_digit() {
    let gui = tiny_gui();
    let mut buf = vec![0u32; 12];
    draw_digits(&mut buf, 12, 1, &gui.digits_timer, &vec![4, 0, 4], 1, 5);
    assert_eq!(lit(&buf), vec![(1, glyph(4)), (6, glyph(0)), (11, glyph(4))]);
}

#[test]
fn draw_timer_lays_out_minutes_colon_seconds() {
    let gui = tiny_gui();
    let mut buf = vec![0u32; 200];
    let t = Timer { minutes: 12, seconds: 34 };
    t.draw_timer(&mut buf, 200, 1, &gui);
    assert_eq!(TIMER_DIGIT_WIDTH, 30);
    assert_eq!(
        lit(&buf),
        vec![
            (31, glyph(1)),
            (61, glyph(2)),
            (91, 0xFF0000CC),
            (109, glyph(3)),
            (139, glyph(4)),
        ]
    );
}

#[test]
fn draw_timer_with_single_digits() {
    let gui = tiny_gui();
    let mut buf = vec![0u32; 160];
    let t = Timer { minutes: 0, seconds: 7 };
    t.draw_timer(&mut buf, 80, 2, &gui);
    assert_eq!(
        lit(&buf),
        vec![(1, glyph(0)), (31, 0xFF0000CC), (49, glyph(0)), (79, glyph(7))]
    );
}

#[test]
fn fps_init_shows_zero() {
    let f = FPS::init(1234);
    assert_eq!(f.total_frame_count, 0);
    assert_eq!(f.interval_frame_count, 0);
    assert_eq!(f.fps_str, "0");
    assert_eq!(f.last_fps_display, 1234);
    assert_eq!(f.width_px, FPS_DIGIT_WIDTH);
    assert_eq!(FPS_DIGIT_WIDTH, 17);
}

#[test]
fn fps_update_str_waits_for_a_second() {
    let mut f = FPS::init(1000);
    f.interval_frame_count = 144;
    f.total_frame_count = 144;
    f.update_str(1999);
    assert_eq!(f.fps_str, "0");
    assert_eq!(f.interval_frame_count, 144);
    assert_eq!(f.last_fps_display, 1000);
    f.update_str(500);
    assert_eq!(f.fps_str, "0");
    assert_eq!(f.last_fps_display, 1000);
    f.update_str(2000);
    assert_eq!(f.fps_str, "144");
    assert_eq!(f.interval_frame_count, 0);
    assert_eq!(f.total_frame_count, 144);
    assert_eq!(f.last_fps_display, 2000);
    assert_eq!(f.width_px, 51);
    f.update_str(3500);
    assert_eq!(f.fps_str, "0");
    assert_eq!(f.width_px, 17);
    assert_eq!(f.last_fps_display, 3500);
}

#[test]
fn draw_fps_is_flush_with_the_right_edge() {
    let gui = tiny_gui();
    let mut f = FPS::init(0);
    f.interval_frame_count = 60;
    f.update_str(1000);
    let mut buf = vec![0u32; 100];
    draw_fps(&f, &mut buf, 100, 1, &gui.digits_fps);
    assert_eq!(lit(&buf), vec![(66, 0xFF000206), (83, 0xFF000200)]);
}

#[test]
fn draw_gui_draws_logo_timer_and_rate() {
    let gui = tiny_gui();
    let mut f = FPS::init(0);
    f.interval_frame_count = 7;
    f.update_str(1000);
    let t = Timer { minutes: 1, seconds: 5 };
    let mut buf = vec![0u32; 100];
    draw_gui(&mut buf, 100, 1, &gui, &t, &f);
    assert_eq!(
        lit(&buf),
        vec![
            (0, 0xFF00AAAA),
            (11, glyph(1)),
            (41, 0xFF0000CC),
            (59, glyph(0)),
            (83, 0xFF000207),
            (89, glyph(5)),
        ]
    );
}

#[test]
fn gui_from_sheet_cuts_every_sprite() {
    let width = 222usize;
    let height = 865usize;
    let data: Vec<u32> = (0..(width * height) as u32).collect();
    let sheet = Texture::from_argb(width, height, data);
    let at = |x: usize, y: usize| (y * width + x) as u32;
    let gui = GUI::from_sheet(&sheet);
    assert_eq!((gui.logo.width, gui.logo.height), (222, 50));
    assert_eq!(gui.logo.data[0], at(0, 0));
    assert_eq!(gui.logo.data[222 * 49 + 221], at(221, 49));
    assert_eq!((gui.colon.width, gui.colon.height), (18, 50));
    assert_eq!(gui.colon.data[0], at(0, 815));
    assert_eq!(gui.colon.data[18 * 50 - 1], at(17, 864));
    for d in 0..10 {
        let timer = &gui.digits_timer[d];
        let wide = if d == 4 { 38 } else { 33 };
        assert_eq!((timer.width, timer.height), (wide, 55));
        assert_eq!(timer.data[0], at(0, 75 + 75 * d));
        assert_eq!(timer.data[wide * 55 - 1], at(wide - 1, 129 + 75 * d));
        let fps = &gui.digits_fps[d];
        assert_eq!((fps.width, fps.height), (17, 25));
        assert_eq!(fps.data[0], at(17 * d, 45));
        assert_eq!(fps.data[17 * 25 - 1], at(17 * d + 16, 69));
    }
}

#[test]
fn gui_from_a_small_sheet_is_clear_where_the_sheet_ends() {
    let sheet = Texture::from_argb(2, 2, vec![1, 2, 3, 4]);
    let gui = GUI::from_sheet(&sheet);
    assert_eq!((gui.logo.width, gui.logo.height), (222, 50));
    assert_eq!(gui.logo.data[0], 1);
    assert_eq!(gui.logo.data[1], 2);
    assert_eq!(gui.logo.data[222], 3);
    assert_eq!(gui.logo.data[2], 0);
    assert!(gui.colon.data.iter().all(|p| *p == 0));
}

#[test]
fn load_gui_decodes_the_sheet() {
    let pixels: Vec<u8> = vec![1, 2, 3, 255, 4, 5, 6, 255];
    let mut bytes: Vec<u8> = Vec::new();
    {
        let mut encoder = png::Encoder::new(&mut bytes, 2, 1);
        encoder.set_color(png::ColorType::Rgba);
        encoder.set_depth(png::BitDepth::Eight);
        let mut writer = encoder.write_header().unwrap();
        writer.write_image_data(&pixels).unwrap();
    }
    let gui = GUI::load_gui(bytes).unwrap();
    assert_eq!(gui.logo.data[0], 0xFF010203);
    assert_eq!(gui.logo.data[1], 0xFF040506);
    assert_eq!(gui.logo.data[2], 0);
    assert_eq!(gui.digits_fps[0].data.len(), 17 * 25);
}

#[test]
fn load_gui_fails_as_the_sheet_does() {
    assert!(matches!(GUI::load_gui(vec![9; 40]), Err(EngineError::PngDecodeErr(_))));
    let mut bytes: Vec<u8> = Vec::new();
    {
        let mut encoder = png::Encoder::new(&mut bytes, 1, 1);
        encoder.set_color(png::ColorType::GrayscaleAlpha);
        encoder.set_depth(png::BitDepth::Eight);
        let mut writer = encoder.write_header().unwrap();
        writer.write_image_data(&[1, 2]).unwrap();
    }
    assert!(matches!(GUI::load_gui(bytes), Err(EngineError::GUILoadErr)));
}

#[test]
fn fps_count_frame_counts_both_ways() {
    let mut f = FPS::init(0);
    f.count_frame();
    f.count_frame();
    assert_eq!((f.total_frame_count, f.interval_frame_count), (2, 2));
    f.update_str(1000);
    assert_eq!(f.fps_str, "2");
    f.count_frame();
    assert_eq!((f.total_frame_count, f.interval_frame_count), (3, 1));
    assert_eq!(f.fps_str, "2");
}

#[test]
fn load_gui_cuts_the_sheet_that_the_bytes_hold() {
    let pixels: Vec<u8> = (0..40 * 90 * 3).map(|i| (i * 13 % 256) as u8).collect();
    let mut bytes: Vec<u8> = Vec::new();
    {
        let mut encoder = png::Encoder::new(&mut bytes, 40, 90);
        encoder.set_color(png::ColorType::Rgb);
        encoder.set_depth(png::BitDepth::Eight);
        let mut writer = encoder.write_header().unwrap();
        writer.write_image_data(&pixels).unwrap();
    }
    let sheet = Texture::load_from_png(bytes.clone()).unwrap();
    let cut = GUI::from_sheet(&sheet);
    let gui = GUI::load_gui(bytes).unwrap();
    assert_eq!(gui.logo.data, cut.logo.data);
    assert_eq!(gui.colon.data, cut.colon.data);
    for digit in 0..10 {
        assert_eq!(gui.digits_timer[digit].data, cut.digits_timer[digit].data);
        assert_eq!(gui.digits_fps[digit].data, cut.digits_fps[digit].data);
    }
    assert_eq!(gui.digits_timer[0].data[0], sheet.data[75 * 40]);
    assert_eq!(sheet.data[75 * 40], 0xFF08_1522);
}
