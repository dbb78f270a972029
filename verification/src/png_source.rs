//! Reading the sprite sheet from the bytes of a PNG file.

use vstd::prelude::*;
use crate::error::EngineError;
use crate::texture::Texture;

verus! {

/// How the samples of a decoded pixel are laid out.
#[derive(Clone, Copy, Debug, PartialEq, Eq, Structural)]
pub enum ColorType {
    Grayscale,
    Rgb,
    Indexed,
    GrayscaleAlpha,
    Rgba,
}

/// The shape of a decoded frame.
#[derive(Clone, Copy, Debug, PartialEq, Eq, Structural)]
pub struct FrameInfo {
    pub width: u32,
    pub height: u32,
    pub color_type: ColorType,
    pub line_size: usize,
}

/// Why the decoding of an image came to an end before its first frame was read.
#[derive(Debug)]
pub enum PngFailure {
    /// The image could not be opened; the decoder's reason is kept.
    Open(png::DecodingError),
    /// The decoder could not tell how many bytes the frame takes.
    TooLarge,
    /// The pixels of the frame could not be decoded; the decoder's reason is kept.
    Frame(png::DecodingError),
}

/// What a decoder makes of an image, in plain values.
pub enum Decoded {
    /// The shape of the first frame, and the buffer it was decoded into.
    Frame(FrameInfo, Seq<u8>),
    /// The image could not be opened.
    NotOpened,
    /// The size of the frame could not be told.
    TooLarge,
    /// The pixels of the frame could not be decoded.
    NotDecoded,
}

/// What the decoder makes of the bytes of an image, on a machine whose addresses
/// have `address_bits` bits: the decoder refuses a frame that does not fit the
/// machine's address space, and depends on nothing else but the bytes.
pub uninterp spec fn png_decoded(bytes: Seq<u8>, address_bits: nat) -> Decoded;

/// The first frame of a PNG image held in memory. Wraps `png::Decoder::new`,
/// `read_info`, `png::Reader::output_buffer_size` and `next_frame`, called in the
/// decoder's order; claims only that the same bytes are decoded alike every time.
#[verifier::external_body]
fn decode_png(bytes: Vec<u8>) -> (r: Result<(FrameInfo, Vec<u8>), PngFailure>)
    ensures
        decoding_of(r) == png_decoded(bytes@, usize::BITS as nat),
{
    let opened = png::Decoder::new(std::io::Cursor::new(bytes)).read_info();
    let mut reader = opened.map_err(PngFailure::Open)?;
    let mut frame = vec![0u8; reader.output_buffer_size().ok_or(PngFailure::TooLarge)?];
    let info = reader.next_frame(&mut frame).map_err(PngFailure::Frame)?;
    let color_type = match info.color_type {
        png::ColorType::Grayscale => ColorType::Grayscale,
        png::ColorType::Rgb => ColorType::Rgb,
        png::ColorType::Indexed => ColorType::Indexed,
        png::ColorType::GrayscaleAlpha => ColorType::GrayscaleAlpha,
        png::ColorType::Rgba => ColorType::Rgba,
    };
    Ok((FrameInfo { width: info.width, height: info.height, color_type, line_size: info.line_size }, frame))
}

/// The number of samples of a pixel in a layout that the overlay takes, else zero.
pub open spec fn samples(color_type: ColorType) -> int {
    match color_type {
        ColorType::Rgba => 4,
        ColorType::Rgb => 3,
        _ => 0,
    }
}

/// The number of bytes that the frame takes in its buffer.
pub open spec fn frame_bytes(info: FrameInfo) -> int {
    info.line_size * info.height
}

/// Whether a frame of this shape in `frame` can be made a texture: its layout is
/// red, green, blue with or without opacity, its bytes are all there, and they
/// make up whole pixels.
pub open spec fn is_loadable(info: FrameInfo, frame: Seq<u8>) -> bool {
    &&& samples(info.color_type) > 0
    &&& frame_bytes(info) <= frame.len()
    &&& frame_bytes(info) % samples(info.color_type) == 0
}

/// Pixel `i` of the frame as a packed colour. A pixel without opacity is solid.
pub open spec fn packed(color_type: ColorType, frame: Seq<u8>, i: int) -> u32 {
    if color_type == ColorType::Rgba {
        ((frame[4 * i + 3] as u32) << 24) | ((frame[4 * i] as u32) << 16) | ((frame[4 * i
            + 1] as u32) << 8) | (frame[4 * i + 2] as u32)
    } else {
        0xFF00_0000u32 | ((frame[3 * i] as u32) << 16) | ((frame[3 * i + 1] as u32) << 8) | (
        frame[3 * i + 2] as u32)
    }
}

/// The packed colours of all pixels of a loadable frame.
pub open spec fn unpacked(info: FrameInfo, frame: Seq<u8>) -> Seq<u32> {
    Seq::new(
        (frame_bytes(info) / samples(info.color_type)) as nat,
        |i: int| packed(info.color_type, frame, i),
    )
}

impl Texture {
    /// The texture that a decoded frame holds: its pixels packed one by one, under
    /// the width and height that the frame states. A frame that is not loadable
    /// is refused.
    pub fn from_frame(info: FrameInfo, frame: &[u8]) -> (r: Result<Texture, EngineError>)
        ensures
            is_loadable(info, frame@) ==> (r matches Ok(t) && t.width == info.width && t.height
                == info.height && t.data@ == unpacked(info, frame@)),
            !is_loadable(info, frame@) ==> r == Err::<Texture, EngineError>(EngineError::GUILoadErr),
    {
        let step: usize = match info.color_type {
            ColorType::Rgba => 4,
            ColorType::Rgb => 3,
            _ => { return Err(EngineError::GUILoadErr); },
        };
        assert(0 <= (info.line_size as u128) * (info.height as u128) <= 0xFFFF_FFFF_FFFF_FFFF
            * 0xFFFF_FFFF) by (nonlinear_arith)
            requires
                0 <= (info.line_size as u128) <= 0xFFFF_FFFF_FFFF_FFFF,
                0 <= (info.height as u128) <= 0xFFFF_FFFF,
        ;
        let size_wide: u128 = (info.line_size as u128) * (info.height as u128);
        if size_wide > frame.len() as u128 {
            return Err(EngineError::GUILoadErr);
        }
        let size = size_wide as usize;
        if size % step != 0 {
            return Err(EngineError::GUILoadErr);
        }
        let count = size / step;
        let mut data: Vec<u32> = Vec::new();
        let mut i: usize = 0;
        while i < count
            invariant
                i <= count,
                count == size / step,
                size % step == 0,
                size <= frame@.len(),
                step == samples(info.color_type),
                step == 3 || step == 4,
                data@.len() == i,
                forall|k: int| 0 <= k < i ==> #[trigger] data@[k] == packed(info.color_type, frame@, k),
            decreases count - i,
        {
            assert(step * i + step <= size) by (nonlinear_arith)
                requires
                    i < count,
                    count == size / step,
                    size % step == 0,
                    step > 0,
            {
                vstd::arithmetic::div_mod::lemma_fundamental_div_mod(size as int, step as int);
            }
            let at = step * i;
            let pixel = if step == 4 {
                ((frame[at + 3] as u32) << 24) | ((frame[at] as u32) << 16) | ((frame[at
                    + 1] as u32) << 8) | (frame[at + 2] as u32)
            } else {
                0xFF00_0000u32 | ((frame[at] as u32) << 16) | ((frame[at + 1] as u32) << 8) | (
                frame[at + 2] as u32)
            };
            data.push(pixel);
            i = i + 1;
        }
        assert(data@ =~= unpacked(info, frame@));
        Ok(Texture { width: info.width as usize, height: info.height as usize, data })
    }

    /// The texture held in the bytes of a PNG file, as the decoder reads them.
    pub fn load_from_png(bytes: Vec<u8>) -> (r: Result<Texture, EngineError>)
        ensures
            is_loaded_from(r, png_decoded(bytes@, usize::BITS as nat)),
    {
        Texture::from_decoding(decode_png(bytes))
    }

    /// The texture that the outcome of a decoding holds.
    ///
    /// A decoded frame is handed to `from_frame`. An image that the decoder could
    /// not open is refused with the decoder's own reason; one whose frame could
    /// not be sized or decoded is refused as one that is not loadable.
    pub fn from_decoding(decoding: Result<(FrameInfo, Vec<u8>), PngFailure>) -> (r: Result<
        Texture,
        EngineError,
    >)
        ensures
            is_loaded_from(r, decoding_of(decoding)),
            decoding matches Err(PngFailure::Open(cause)) ==> r matches Err(
                EngineError::PngDecodeErr(kept),
            ) && kept == cause,
    {
        match decoding {
            Ok((info, frame)) => Texture::from_frame(info, frame.as_slice()),
            Err(PngFailure::Open(cause)) => Err(EngineError::PngDecodeErr(cause)),
            Err(PngFailure::TooLarge) => Err(EngineError::GUILoadErr),
            Err(PngFailure::Frame(_)) => Err(EngineError::GUILoadErr),
        }
    }
}

/// The outcome of a decoding in plain values.
pub open spec fn decoding_of(decoding: Result<(FrameInfo, Vec<u8>), PngFailure>) -> Decoded {
    match decoding {
        Ok((info, frame)) => Decoded::Frame(info, frame@),
        Err(PngFailure::Open(_)) => Decoded::NotOpened,
        Err(PngFailure::TooLarge) => Decoded::TooLarge,
        Err(PngFailure::Frame(_)) => Decoded::NotDecoded,
    }
}

/// Whether the decoder's answer holds a frame that can be made a texture.
pub open spec fn is_sheet(decoded: Decoded) -> bool {
    decoded matches Decoded::Frame(info, frame) && is_loadable(info, frame)
}

/// Whether `sheet` is the texture that the decoded frame holds.
pub open spec fn holds_sheet(sheet: Texture, decoded: Decoded) -> bool {
    decoded matches Decoded::Frame(info, frame) && sheet.width == info.width && sheet.height
        == info.height && sheet.data@ == unpacked(info, frame)
}

/// Whether `failure` is the refusal owed to an answer that holds no such frame:
/// the decoder's failure where the image could not be opened, else that the
/// sheet is not loadable.
pub open spec fn is_refusal(failure: EngineError, decoded: Decoded) -> bool {
    if decoded is NotOpened {
        failure is PngDecodeErr
    } else {
        failure is GUILoadErr
    }
}

/// Whether `r` is what loading gives for the decoder's answer `decoded`.
pub open spec fn is_loaded_from(r: Result<Texture, EngineError>, decoded: Decoded) -> bool {
    if is_sheet(decoded) {
        r matches Ok(sheet) && holds_sheet(sheet, decoded)
    } else {
        r matches Err(failure) && is_refusal(failure, decoded)
    }
}

} // verus!
