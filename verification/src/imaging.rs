//! Images on their way between the clipboard and the wire.
//!
//! The clipboard of the operating system holds an image as rows of RGBA
//! pixels, the wire carries it as a PNG file. The two conversions are made by
//! the `image` crate; this module checks what is handed to it.

use vstd::prelude::*;

verus! {

/// The number of bytes of one pixel.
pub const BYTES_PER_PIXEL: usize = 4;

#[derive(Debug, Clone, Copy, PartialEq, Eq, Structural)]
pub enum ImageError {
    /// The pixels are fewer than the width and the height ask for, or a
    /// dimension is greater than an image can have.
    InvalidBuffer,
    /// The image could not be written as a PNG file.
    EncodeFailed,
    /// The bytes are no image that can be read.
    DecodeFailed,
}

/// An image as rows of RGBA pixels, top row first.
#[derive(Debug, Clone, PartialEq, Eq)]
pub struct RgbaImage {
    pub width: usize,
    pub height: usize,
    pub bytes: Vec<u8>,
}

/// The PNG file that the `image` crate writes for an image of `width` by
/// `height` pixels with the bytes `pixels`; none where it cannot write one.
pub uninterp spec fn png_encoding(width: u32, height: u32, pixels: Seq<u8>) -> Option<Seq<u8>>;

/// The image that the `image` crate reads from `data`, as width, height and
/// RGBA pixels; none where it reads no image.
pub uninterp spec fn decoded_image(data: Seq<u8>) -> Option<(u32, u32, Seq<u8>)>;

/// Writes the pixels as a PNG file with `ImageBuffer::write_to` of the `image`
/// crate.
///
/// The pixels are as many as the width and the height ask for, so the buffer
/// is accepted by `ImageBuffer::from_raw`. The encoder is a function of the
/// dimensions and the pixels: the result is `png_encoding` of them.
#[verifier::external_body]
fn encode_png(width: u32, height: u32, pixels: Vec<u8>) -> (png: Option<Vec<u8>>)
    requires
        pixels@.len() == BYTES_PER_PIXEL * width * height,
    ensures
        match png {
            Some(bytes) => png_encoding(width, height, pixels@) == Some(bytes@),
            None => png_encoding(width, height, pixels@) is None,
        },
{
    let buffer = image::ImageBuffer::<image::Rgba<u8>, Vec<u8>>::from_raw(width, height, pixels)?;
    let mut png: Vec<u8> = Vec::new();
    let mut cursor = std::io::Cursor::new(&mut png);
    match buffer.write_to(&mut cursor, image::ImageOutputFormat::Png) {
        Ok(()) => Some(png),
        Err(_) => None,
    }
}

/// Reads an image with `load_from_memory` of the `image` crate and converts it
/// to RGBA pixels with `DynamicImage::to_rgba8`.
///
/// The decoder is a function of the bytes: the result is `decoded_image` of
/// them. The conversion makes a buffer of exactly four bytes for each pixel.
#[verifier::external_body]
fn decode_rgba(data: &[u8]) -> (image: Option<(u32, u32, Vec<u8>)>)
    ensures
        match image {
            Some((width, height, pixels)) => decoded_image(data@) == Some((width, height, pixels@))
                && pixels@.len() == BYTES_PER_PIXEL * width * height,
            None => decoded_image(data@) is None,
        },
{
    match image::load_from_memory(data) {
        Ok(decoded) => {
            let rgba = decoded.to_rgba8();
            Some((rgba.width(), rgba.height(), rgba.into_raw()))
        },
        Err(_) => None,
    }
}

/// Whether `len` bytes are enough for an image of `width` by `height` pixels.
pub open spec fn fits(width: usize, height: usize, len: nat) -> bool {
    width <= u32::MAX && height <= u32::MAX && BYTES_PER_PIXEL * width * height <= len
}

/// What `rgba_to_png` returns for an image of `width` by `height` pixels with
/// the bytes `bytes`. Bytes beyond the last pixel are not part of the image.
pub open spec fn png_of(width: usize, height: usize, bytes: Seq<u8>) -> Result<Seq<u8>, ImageError> {
    if !fits(width, height, bytes.len()) {
        Err(ImageError::InvalidBuffer)
    } else {
        match png_encoding(
            width as u32,
            height as u32,
            bytes.take(BYTES_PER_PIXEL * width * height),
        ) {
            Some(png) => Ok(png),
            None => Err(ImageError::EncodeFailed),
        }
    }
}

/// What is done with the outcome of the encoder.
pub fn encoded_or_error(png: Option<Vec<u8>>) -> (r: Result<Vec<u8>, ImageError>)
    ensures
        match png {
            Some(bytes) => r == Ok::<Vec<u8>, ImageError>(bytes),
            None => r == Err::<Vec<u8>, ImageError>(ImageError::EncodeFailed),
        },
{
    match png {
        Some(bytes) => Ok(bytes),
        None => Err(ImageError::EncodeFailed),
    }
}

/// The PNG file for the image of `width` by `height` RGBA pixels in `bytes`.
pub fn rgba_to_png(width: usize, height: usize, bytes: Vec<u8>) -> (r: Result<Vec<u8>, ImageError>)
    ensures
        match png_of(width, height, bytes@) {
            Ok(png) => r is Ok && r->Ok_0@ == png,
            Err(e) => r == Err::<Vec<u8>, ImageError>(e),
        },
{
    if width > u32::MAX as usize || height > u32::MAX as usize {
        return Err(ImageError::InvalidBuffer);
    }
    assert(width * height <= 0xFFFF_FFFF * 0xFFFF_FFFF) by (nonlinear_arith)
        requires
            width <= 0xFFFF_FFFF,
            height <= 0xFFFF_FFFF,
    ;
    let area: u128 = (width as u128) * (height as u128);
    let needed: u128 = area * (BYTES_PER_PIXEL as u128);
    assert(needed == BYTES_PER_PIXEL * width * height) by (nonlinear_arith)
        requires
            needed == (width * height) * BYTES_PER_PIXEL,
    ;
    if needed > bytes.len() as u128 {
        return Err(ImageError::InvalidBuffer);
    }
    let mut pixels = bytes;
    pixels.truncate(needed as usize);
    encoded_or_error(encode_png(width as u32, height as u32, pixels))
}

/// What `png_to_rgba` returns for the bytes `data`, as width, height and
/// pixels.
pub open spec fn rgba_of(data: Seq<u8>) -> Result<(usize, usize, Seq<u8>), ImageError> {
    match decoded_image(data) {
        Some((width, height, pixels)) => {
            if width <= usize::MAX && height <= usize::MAX {
                Ok((width as usize, height as usize, pixels))
            } else {
                Err(ImageError::DecodeFailed)
            }
        },
        None => Err(ImageError::DecodeFailed),
    }
}

/// What is done with the outcome of the decoder.
pub fn decoded_or_error(image: Option<(u32, u32, Vec<u8>)>) -> (r: Result<RgbaImage, ImageError>)
    ensures
        match image {
            Some((width, height, pixels)) => {
                if width <= usize::MAX && height <= usize::MAX {
                    r is Ok && r->Ok_0.width == width && r->Ok_0.height == height && r->Ok_0.bytes
                        == pixels
                } else {
                    r == Err::<RgbaImage, ImageError>(ImageError::DecodeFailed)
                }
            },
            None => r == Err::<RgbaImage, ImageError>(ImageError::DecodeFailed),
        },
{
    match image {
        Some((width, height, pixels)) => {
            if width as u64 <= usize::MAX as u64 && height as u64 <= usize::MAX as u64 {
                Ok(RgbaImage { width: width as usize, height: height as usize, bytes: pixels })
            } else {
                Err(ImageError::DecodeFailed)
            }
        },
        None => Err(ImageError::DecodeFailed),
    }
}

/// The image that the bytes `data` hold, as RGBA pixels. The pixels are
/// exactly as many as the width and the height ask for.
pub fn png_to_rgba(data: &[u8]) -> (r: Result<RgbaImage, ImageError>)
    ensures
        match rgba_of(data@) {
            Ok((width, height, pixels)) => r is Ok && r->Ok_0.width == width && r->Ok_0.height
                == height && r->Ok_0.bytes@ == pixels && pixels.len() == BYTES_PER_PIXEL * width
                * height,
            Err(e) => r == Err::<RgbaImage, ImageError>(e),
        },
{
    decoded_or_error(decode_rgba(data))
}

} // verus!
