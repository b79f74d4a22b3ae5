use vstd::prelude::*;
use crate::display::{rgba_pixels, rgba_to_minifb_pixels};

verus! {

/// The first frame of a decoded PNG: its size, its colour type and bit depth as the PNG header
/// codes them, and its bytes.
pub struct PngFrame {
    pub width: u32,
    pub height: u32,
    pub color_type: u8,
    pub bit_depth: u8,
    pub data: Vec<u8>,
}

/// PNG colour type code of RGBA pixels (red, green, blue and alpha samples).
pub const PNG_COLOR_RGBA: u8 = 6;

/// PNG bit depth code of eight bits per sample.
pub const PNG_DEPTH_EIGHT: u8 = 8;

/// Whether a frame holds 8-bit RGBA pixels.
pub open spec fn is_rgba8(color_type: u8, bit_depth: u8) -> bool {
    color_type == PNG_COLOR_RGBA && bit_depth == PNG_DEPTH_EIGHT
}

/// Why a PNG could not be decoded: at its header (`frame` false) or at its first frame, with
/// the decoder's message.
#[derive(Debug)]
pub struct PngFailure {
    pub frame: bool,
    pub message: String,
}

/// What the `png` crate's decoder makes of `bytes`: the first frame's width, height, colour
/// type and bit depth codes, and its bytes; or where decoding failed and the decoder's message.
pub uninterp spec fn png_decoded(bytes: Seq<u8>) -> Result<(u32, u32, u8, u8, Seq<u8>), (bool, Seq<char>)>;

/// Decodes the first frame of a PNG with the `png` crate (`Decoder::new`, `read_info`,
/// `output_buffer_size`, `next_frame`, `OutputInfo::buffer_size`); the colour type and bit
/// depth are handed out as the codes that `png::ColorType` and `png::BitDepth` are declared
/// with, which are those of the PNG header. The contract only names the
/// result as a function of the bytes (`png_decoded`); what the decoder returns for given bytes,
/// and on which inputs its own resource limits make it fail, is not stated here.
#[verifier::external_body]
fn decode_png(bytes: &[u8]) -> (r: Result<PngFrame, PngFailure>)
    ensures
        png_decoded(bytes@) == match r {
            Ok(f) => Ok((f.width, f.height, f.color_type, f.bit_depth, f.data@)),
            Err(e) => Err((e.frame, e.message@)),
        },
{
    let mut reader = match png::Decoder::new(std::io::Cursor::new(bytes)).read_info() {
        Ok(reader) => reader,
        Err(error) => return Err(PngFailure { frame: false, message: format!("{error}") }),
    };
    let mut data = vec![0; reader.output_buffer_size()];
    let info = match reader.next_frame(&mut data) {
        Ok(info) => info,
        Err(error) => return Err(PngFailure { frame: true, message: format!("{error}") }),
    };
    data.truncate(info.buffer_size());
    let (color_type, bit_depth) = (info.color_type as u8, info.bit_depth as u8);
    Ok(PngFrame { width: info.width, height: info.height, color_type, bit_depth, data })
}

/// Why the board image could not be turned into pixels.
#[derive(Clone, Debug, PartialEq, Eq)]
pub enum ImageError {
    /// The PNG header could not be read; the decoder's message.
    Decode(String),
    /// The first frame could not be decoded; the decoder's message.
    Frame(String),
    /// The image is not the expected size.
    Dimensions,
    /// The image is not 8-bit RGBA.
    Format,
}

/// The pixels of a decoded frame of the expected size: the frame must be `width` by `height`
/// and 8-bit RGBA; its pixels are composited over white.
pub fn board_image_pixels(frame: PngFrame, width: usize, height: usize) -> (r: Result<
    Vec<u32>,
    ImageError,
>)
    ensures
        frame.width != width || frame.height != height ==> r == Err::<Vec<u32>, ImageError>(
            ImageError::Dimensions,
        ),
        frame.width == width && frame.height == height && !is_rgba8(
            frame.color_type,
            frame.bit_depth,
        ) ==> r == Err::<Vec<u32>, ImageError>(ImageError::Format),
        frame.width == width && frame.height == height && is_rgba8(
            frame.color_type,
            frame.bit_depth,
        ) ==> (r matches Ok(pixels) && pixels@ == rgba_pixels(frame.data@)),
{
    if frame.width as usize != width || frame.height as usize != height {
        return Err(ImageError::Dimensions);
    }
    if !(frame.color_type == PNG_COLOR_RGBA && frame.bit_depth == PNG_DEPTH_EIGHT) {
        return Err(ImageError::Format);
    }
    Ok(rgba_to_minifb_pixels(frame.data.as_slice()))
}

/// Decodes the board image: a PNG of `width` by `height` 8-bit RGBA pixels, composited over
/// white.
pub fn decode_board_image(png: &[u8], width: usize, height: usize) -> (r: Result<
    Vec<u32>,
    ImageError,
>)
    ensures
        png_decoded(png@) matches Err((frame, message)) ==> (r matches Err(e) && (if frame {
            e matches ImageError::Frame(m) && m@ == message
        } else {
            e matches ImageError::Decode(m) && m@ == message
        })),
        png_decoded(png@) matches Ok((w, h, color_type, bit_depth, data)) ==> ({
            &&& w != width || h != height ==> r == Err::<Vec<u32>, ImageError>(
                ImageError::Dimensions,
            )
            &&& w == width && h == height && !is_rgba8(color_type, bit_depth) ==> r == Err::<
                Vec<u32>,
                ImageError,
            >(ImageError::Format)
            &&& w == width && h == height && is_rgba8(color_type, bit_depth) ==> (r matches Ok(
                pixels,
            ) && pixels@ == rgba_pixels(data))
        }),
{
    match decode_png(png) {
        Ok(frame) => board_image_pixels(frame, width, height),
        Err(failure) => if failure.frame {
            Err(ImageError::Frame(failure.message))
        } else {
            Err(ImageError::Decode(failure.message))
        },
    }
}

} // verus!
