use aim_trainer::error::{decode_message, EngineError};
use aim_trainer::png_source::{ColorType, FrameInfo, PngFailure};
use aim_trainer::texture::{blend_pixel_fast, draw_texture_optimized, Texture};

fn encode(width: u32, height: u32, color: png::ColorType, depth: png::BitDepth, data: &[u8]) -> Vec<u8> {
    let mut bytes: Vec<u8> = Vec::new();
    {
        let mut encoder = png::Encoder::new(&mut bytes, width, height);
        encoder.set_color(color);
        encoder.set_depth(depth);
        let mut writer = encoder.write_header().unwrap();
        writer.write_image_data(data).unwrap();
    }
    bytes
}

#[test]
fn from_argb_keeps_what_it_is_given() {
    let t = Texture::from_argb(2, 3, vec![1, 2, 3, 4, 5, 6]);
    assert_eq!(t.width, 2);
    assert_eq!(t.height, 3);
    assert_eq!(t.data, vec![1, 2, 3, 4, 5, 6]);
    let short = Texture::from_argb(4, 4, vec![9]);
    assert_eq!(short.width, 4);
    assert_eq!(short.data, vec![9]);
}

#[test]
fn extract_region_cuts_a_rectangle() {
    let sheet = Texture::from_argb(3, 2, vec![1, 2, 3, 4, 5, 6]);
    let part = sheet.extract_region(1, 0, 3, 2);
    assert_eq!((part.width, part.height), (2, 2));
    assert_eq!(part.data, vec![2, 3, 5, 6]);
    let whole = sheet.extract_region(0, 0, 3, 2);
    assert_eq!(whole.data, sheet.data);
}

#[test]
fn extract_region_beyond_the_sheet_is_clear() {
    let sheet = Texture::from_argb(3, 2, vec![1, 2, 3, 4, 5, 6]);
    let part = sheet.extract_region(2, 1, 4, 3);
    assert_eq!((part.width, part.height), (2, 2));
    assert_eq!(part.data, vec![6, 0, 0, 0]);
    let far = sheet.extract_region(10, 10, 12, 11);
    assert_eq!(far.data, vec![0, 0]);
}

#[test]
fn extract_region_of_no_size_is_empty() {
    let sheet = Texture::from_argb(3, 2, vec![1, 2, 3, 4, 5, 6]);
    let part = sheet.extract_region(1, 1, 1, 2);
    assert_eq!((part.width, part.height), (0, 1));
    assert!(part.data.is_empty());
}

#[test]
fn extract_region_reads_short_data_as_clear() {
    let sheet = Texture::from_argb(2, 2, vec![7, 8, 9]);
    let part = sheet.extract_region(0, 0, 2, 2);
    assert_eq!(part.data, vec![7, 8, 9, 0]);
}

#[test]
fn blend_pixel_fast_solid_and_clear() {
    assert_eq!(blend_pixel_fast(0xFF102030, 0x12345678, 255), 0x12345678);
    assert_eq!(blend_pixel_fast(0x77102030, 0x12345678, 0), 0x77102030);
}

#[test]
fn blend_pixel_fast_mixes_each_channel() {
    assert_eq!(blend_pixel_fast(0xFF000000, 0x80FFFFFF, 128), 0xFF7F7F7F);
    assert_eq!(blend_pixel_fast(0xFF102030, 0x40FF8000, 64), 0xFF4B3723);
    assert_eq!(blend_pixel_fast(0x00FFFFFF, 0x01000000, 1), 0xFFFDFDFD);
    assert_eq!(blend_pixel_fast(0x00000000, 0xFEFFFFFF, 254), 0xFFFDFDFD);
}

#[test]
fn draw_texture_copies_solid_texels() {
    let mut buf = vec![1u32; 9];
    let t = Texture::from_argb(2, 2, vec![0xFF0000AA, 0xFF0000BB, 0xFF0000CC, 0xFF0000DD]);
    draw_texture_optimized(&mut buf, 3, 3, &t, 1, 1);
    let expect: Vec<u32> = vec![
        1, 1, 1, //
        1, 0xFF0000AA, 0xFF0000BB, //
        1, 0xFF0000CC, 0xFF0000DD,
    ];
    assert_eq!(buf, expect);
}

#[test]
fn draw_texture_is_cut_to_the_frame() {
    let mut buf = vec![1u32; 9];
    let t = Texture::from_argb(2, 2, vec![0xFF0000AA, 0xFF0000BB, 0xFF0000CC, 0xFF0000DD]);
    draw_texture_optimized(&mut buf, 3, 3, &t, 2, 2);
    let expect: Vec<u32> = vec![1, 1, 1, 1, 1, 1, 1, 1, 0xFF0000AA];
    assert_eq!(buf, expect);
    draw_texture_optimized(&mut buf, 3, 3, &t, 3, 0);
    draw_texture_optimized(&mut buf, 3, 3, &t, 0, 3);
    draw_texture_optimized(&mut buf, 3, 3, &t, usize::MAX, usize::MAX);
    assert_eq!(buf, expect);
}

#[test]
fn draw_texture_skips_clear_and_blends_the_rest() {
    let mut buf = vec![0xFF102030u32; 4];
    let t = Texture::from_argb(2, 2, vec![0x00FFFFFF, 0x40FF8000, 0xFF010203, 0x80FFFFFF]);
    draw_texture_optimized(&mut buf, 2, 2, &t, 0, 0);
    assert_eq!(buf[0], 0xFF102030);
    assert_eq!(buf[1], 0xFF4B3723);
    assert_eq!(buf[2], 0xFF010203);
    // (255 * 128 + c * 127) >> 8 for c = 0x10, 0x20, 0x30
    assert_eq!(buf[3], 0xFF878F97);
}

#[test]
fn draw_texture_into_a_short_buffer_or_with_short_data() {
    let mut buf = vec![1u32; 3];
    let t = Texture::from_argb(2, 2, vec![0xFF0000AA, 0xFF0000BB, 0xFF0000CC]);
    draw_texture_optimized(&mut buf, 2, 2, &t, 0, 0);
    assert_eq!(buf, vec![0xFF0000AA, 0xFF0000BB, 0xFF0000CC]);
    let mut buf = vec![1u32; 4];
    draw_texture_optimized(&mut buf, 2, 2, &t, 0, 0);
    assert_eq!(buf, vec![0xFF0000AA, 0xFF0000BB, 0xFF0000CC, 1]);
    let mut none: Vec<u32> = Vec::new();
    draw_texture_optimized(&mut none, 0, 0, &t, 0, 0);
    assert!(none.is_empty());
}

#[test]
fn from_frame_packs_rgba() {
    let info = FrameInfo { width: 2, height: 1, color_type: ColorType::Rgba, line_size: 8 };
    let t = Texture::from_frame(info, &[1, 2, 3, 4, 0xAA, 0xBB, 0xCC, 0xDD]).unwrap();
    assert_eq!((t.width, t.height), (2, 1));
    assert_eq!(t.data, vec![0x04010203, 0xDDAABBCC]);
}

#[test]
fn from_frame_packs_rgb_as_solid() {
    let info = FrameInfo { width: 1, height: 2, color_type: ColorType::Rgb, line_size: 3 };
    let t = Texture::from_frame(info, &[1, 2, 3, 0xAA, 0xBB, 0xCC, 99, 99]).unwrap();
    assert_eq!((t.width, t.height), (1, 2));
    assert_eq!(t.data, vec![0xFF010203, 0xFFAABBCC]);
}

#[test]
fn from_frame_refuses_other_layouts_and_broken_frames() {
    let gray = FrameInfo { width: 1, height: 1, color_type: ColorType::Grayscale, line_size: 1 };
    assert!(matches!(Texture::from_frame(gray, &[7]), Err(EngineError::GUILoadErr)));
    let gray_alpha =
        FrameInfo { width: 1, height: 1, color_type: ColorType::GrayscaleAlpha, line_size: 2 };
    assert!(matches!(Texture::from_frame(gray_alpha, &[7, 7]), Err(EngineError::GUILoadErr)));
    let indexed = FrameInfo { width: 1, height: 1, color_type: ColorType::Indexed, line_size: 1 };
    assert!(matches!(Texture::from_frame(indexed, &[7]), Err(EngineError::GUILoadErr)));
    let short = FrameInfo { width: 2, height: 1, color_type: ColorType::Rgba, line_size: 8 };
    assert!(matches!(Texture::from_frame(short, &[1, 2, 3, 4]), Err(EngineError::GUILoadErr)));
    let ragged = FrameInfo { width: 1, height: 1, color_type: ColorType::Rgba, line_size: 5 };
    assert!(matches!(Texture::from_frame(ragged, &[1, 2, 3, 4, 5]), Err(EngineError::GUILoadErr)));
    let ragged = FrameInfo { width: 1, height: 1, color_type: ColorType::Rgb, line_size: 4 };
    assert!(matches!(Texture::from_frame(ragged, &[1, 2, 3, 4]), Err(EngineError::GUILoadErr)));
}

#[test]
fn from_frame_of_no_pixels_is_empty() {
    let info = FrameInfo { width: 0, height: 0, color_type: ColorType::Rgba, line_size: 0 };
    let t = Texture::from_frame(info, &[]).unwrap();
    assert!(t.data.is_empty());
}

#[test]
fn load_from_png_reads_rgba_pixels() {
    let pixels: Vec<u8> = vec![
        255, 0, 0, 255, 0, 255, 0, 128, //
        0, 0, 255, 0, 1, 2, 3, 4,
    ];
    let bytes = encode(2, 2, png::ColorType::Rgba, png::BitDepth::Eight, &pixels);
    let t = Texture::load_from_png(bytes).unwrap();
    assert_eq!((t.width, t.height), (2, 2));
    assert_eq!(t.data, vec![0xFFFF0000, 0x8000FF00, 0x000000FF, 0x04010203]);
}

#[test]
fn load_from_png_reads_rgb_pixels_as_solid() {
    let pixels: Vec<u8> = vec![10, 20, 30, 40, 50, 60, 70, 80, 90];
    let bytes = encode(3, 1, png::ColorType::Rgb, png::BitDepth::Eight, &pixels);
    let t = Texture::load_from_png(bytes).unwrap();
    assert_eq!((t.width, t.height), (3, 1));
    assert_eq!(t.data, vec![0xFF0A141E, 0xFF28323C, 0xFF46505A]);
}

#[test]
fn load_from_png_refuses_what_is_no_png() {
    let failure = Texture::load_from_png(vec![1, 2, 3, 4, 5]);
    assert!(matches!(failure, Err(EngineError::PngDecodeErr(_))));
    let failure = Texture::load_from_png(Vec::new());
    assert!(matches!(failure, Err(EngineError::PngDecodeErr(_))));
}

#[test]
fn load_from_png_refuses_grayscale() {
    let bytes = encode(2, 1, png::ColorType::Grayscale, png::BitDepth::Eight, &[5, 6]);
    let failure = Texture::load_from_png(bytes);
    assert!(matches!(failure, Err(EngineError::GUILoadErr)));
}

#[test]
fn load_from_png_refuses_a_cut_off_image() {
    let pixels: Vec<u8> = vec![7; 64 * 64 * 4];
    let mut bytes = encode(64, 64, png::ColorType::Rgba, png::BitDepth::Eight, &pixels);
    bytes.truncate(60);
    let failure = Texture::load_from_png(bytes);
    assert!(failure.is_err());
}

#[test]
fn engine_error_messages() {
    assert_eq!(EngineError::GUILoadErr.message(), "Failed to load GUI");
    match Texture::load_from_png(vec![0; 16]) {
        Err(cause) => assert!(cause.message().starts_with("Failed to decode PNG: ")),
        Ok(_) => panic!("sixteen zero bytes are no image"),
    }
}

fn decoder_failure() -> png::DecodingError {
    match png::Decoder::new(std::io::Cursor::new(vec![9u8, 9, 9])).read_info() {
        Err(cause) => cause,
        Ok(_) => panic!("three bytes are no image"),
    }
}

#[test]
fn from_decoding_packs_a_decoded_frame() {
    let info = FrameInfo { width: 1, height: 2, color_type: ColorType::Rgba, line_size: 4 };
    let frame: Vec<u8> = vec![1, 2, 3, 4, 5, 6, 7, 8];
    let t = Texture::from_decoding(Ok((info, frame))).unwrap();
    assert_eq!((t.width, t.height), (1, 2));
    assert_eq!(t.data, vec![0x04010203, 0x08050607]);
}

#[test]
fn from_decoding_refuses_a_frame_in_another_layout() {
    let info = FrameInfo { width: 1, height: 1, color_type: ColorType::Indexed, line_size: 1 };
    let failure = Texture::from_decoding(Ok((info, vec![0])));
    assert!(matches!(failure, Err(EngineError::GUILoadErr)));
}

#[test]
fn from_decoding_keeps_the_reason_of_an_image_not_opened() {
    let reason = decoder_failure().to_string();
    match Texture::from_decoding(Err(PngFailure::Open(decoder_failure()))) {
        Err(EngineError::PngDecodeErr(kept)) => assert_eq!(kept.to_string(), reason),
        _ => panic!("an image that was not opened gives the decoder's failure"),
    }
}

#[test]
fn from_decoding_refuses_a_frame_not_sized_or_not_decoded() {
    let failure = Texture::from_decoding(Err(PngFailure::TooLarge));
    assert!(matches!(failure, Err(EngineError::GUILoadErr)));
    let failure = Texture::from_decoding(Err(PngFailure::Frame(decoder_failure())));
    assert!(matches!(failure, Err(EngineError::GUILoadErr)));
}

#[test]
fn load_from_png_refuses_an_image_cut_off_in_its_pixels() {
    let pixels: Vec<u8> = (0..64 * 64 * 4).map(|i| (i * 31 % 251) as u8).collect();
    let mut bytes = encode(64, 64, png::ColorType::Rgba, png::BitDepth::Eight, &pixels);
    let whole = bytes.len();
    bytes.truncate(whole / 2);
    let failure = Texture::load_from_png(bytes);
    assert!(matches!(failure, Err(EngineError::GUILoadErr)));
}

#[test]
fn load_from_png_refuses_an_image_cut_off_in_its_header() {
    let mut bytes = encode(2, 1, png::ColorType::Rgb, png::BitDepth::Eight, &[1, 2, 3, 4, 5, 6]);
    bytes.truncate(20);
    let failure = Texture::load_from_png(bytes);
    assert!(matches!(failure, Err(EngineError::PngDecodeErr(_))));
}

#[test]
fn load_from_png_reads_the_same_bytes_alike() {
    let pixels: Vec<u8> = (0..5 * 3 * 4).map(|i| (i * 7 % 256) as u8).collect();
    let bytes = encode(5, 3, png::ColorType::Rgba, png::BitDepth::Eight, &pixels);
    let first = Texture::load_from_png(bytes.clone()).unwrap();
    let second = Texture::load_from_png(bytes).unwrap();
    assert_eq!((first.width, first.height), (second.width, second.height));
    assert_eq!(first.data, second.data);
    assert_eq!(first.data.len(), 15);
    assert_eq!(first.data[1], 0x311C232A);
}

#[test]
fn decode_message_leads_in_the_decoders_words() {
    assert_eq!(decode_message("bad chunk"), "Failed to decode PNG: bad chunk");
    assert_eq!(decode_message(""), "Failed to decode PNG: ");
}

#[test]
fn message_of_a_decoder_failure_ends_in_the_decoders_words() {
    let reason = decoder_failure().to_string();
    assert!(!reason.is_empty());
    let failure = EngineError::PngDecodeErr(decoder_failure());
    assert_eq!(failure.message(), format!("Failed to decode PNG: {}", reason));
}
