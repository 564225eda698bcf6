//! The boundary to the `image` crate.
//!
//! Everything here is believed, not proved: each function below hands its
//! arguments to `image` and its contract says what `image` returns.

use vstd::prelude::*;
use crate::pixel::{brightened, luminance};
use crate::signature::{opens_as_rgba_png, Format};
use image::ImageFormat;

verus! {

/// `image::ImageError`, the error of every fallible call into `image`. It
/// is carried through without being looked into.
#[verifier::external_type_specification]
#[verifier::external_body]
pub struct ExImageError(image::ImageError);

/// What `image::load_from_memory_with_format` makes of a byte sequence read
/// as the given format, brought to eight bits and four channels: width,
/// height and the channel bytes, or nothing where it reports an error.
pub uninterp spec fn decoded(bytes: Seq<u8>, format: Format) -> Option<(u32, u32, Seq<u8>)>;

/// The PNG bitstream that `image` writes for an image of the given
/// dimensions and RGBA channel bytes, or nothing where it reports an error.
pub uninterp spec fn png_of(width: u32, height: u32, data: Seq<u8>) -> Option<Seq<u8>>;

/// The luminance and alpha of each pixel, two bytes to a pixel.
pub open spec fn luminance_alpha_of(data: Seq<u8>) -> Seq<u8> {
    Seq::new(
        data.len() / 2,
        |j: int|
            if j % 2 == 0 {
                luminance(
                    data[4 * (j / 2)] as int,
                    data[4 * (j / 2) + 1] as int,
                    data[4 * (j / 2) + 2] as int,
                ) as u8
            } else {
                data[4 * (j / 2) + 3]
            },
    )
}

/// Every colour byte moved by `delta` and clamped, every fourth byte (the
/// alpha) kept.
pub open spec fn brightened_bytes(data: Seq<u8>, delta: int) -> Seq<u8> {
    Seq::new(
        data.len(),
        |j: int|
            if j % 4 == 3 {
                data[j]
            } else {
                brightened(data[j] as int, delta) as u8
            },
    )
}

/// Calls `image::load_from_memory_with_format` and
/// `DynamicImage::into_rgba8`.
///
/// Believed: decoding bytes as a given format depends on the bytes and the
/// format alone, so its outcome is `decoded` of them, an image where the
/// call succeeds and nothing where it reports an error.
#[verifier::external_body]
pub(crate) fn load_rgba(bytes: &[u8], format: Format) -> (loaded: Result<
    (u32, u32, Vec<u8>),
    image::ImageError,
>)
    ensures
        match loaded {
            Ok(raw) => decoded(bytes@, format) == Some((raw.0, raw.1, raw.2@)),
            Err(_) => decoded(bytes@, format) is None,
        },
{
    let format = match format {
        Format::Png => ImageFormat::Png, Format::Jpeg => ImageFormat::Jpeg,
        Format::Gif => ImageFormat::Gif, Format::WebP => ImageFormat::WebP,
        Format::Tiff => ImageFormat::Tiff, Format::Dds => ImageFormat::Dds,
        Format::Bmp => ImageFormat::Bmp, Format::Ico => ImageFormat::Ico,
        Format::Hdr => ImageFormat::Hdr, Format::Avif => ImageFormat::Avif,
        Format::OpenExr => ImageFormat::OpenExr, Format::Qoi => ImageFormat::Qoi,
        Format::Pnm => ImageFormat::Pnm, Format::Farbfeld => ImageFormat::Farbfeld,
    };
    let rgba = image::load_from_memory_with_format(bytes, format)?.into_rgba8();
    Ok((rgba.width(), rgba.height(), rgba.into_raw()))
}

/// Calls `ImageBuffer::write_to` with `ImageFormat::Png` on an in-memory
/// writer.
///
/// Believed: whether the call succeeds and what it writes depend on the
/// image alone, so its outcome is `png_of` the image: the bytes written
/// where it succeeds, nothing where it reports an error. The bytes written
/// open with the PNG signature and a header chunk that holds the width, the
/// height, the bit depth 8 and the colour type 6. Only an image that has
/// pixels is handed over.
#[verifier::external_body]
pub(crate) fn write_png(width: u32, height: u32, data: &Vec<u8>) -> (written: Result<
    Vec<u8>,
    image::ImageError,
>)
    requires
        width > 0,
        height > 0,
        data@.len() == 4 * (width * height),
    ensures
        match written {
            Ok(bytes) => png_of(width, height, data@) == Some(bytes@) && opens_as_rgba_png(
                bytes@,
                width,
                height,
            ),
            Err(_) => png_of(width, height, data@) is None,
        },
{
    let pixels: &[u8] = data.as_slice();
    let buffer = image::ImageBuffer::<image::Rgba<u8>, &[u8]>::from_raw(width, height, pixels);
    let mut out = std::io::Cursor::new(Vec::new());
    buffer.unwrap().write_to(&mut out, ImageFormat::Png)?;
    Ok(out.into_inner())
}

/// Calls `DynamicImage::grayscale` on an RGBA image.
///
/// Believed: the result has a luminance and an alpha byte for each pixel;
/// the luminance is `(2126 r + 7152 g + 722 b) / 10000` rounded down, the
/// alpha is the pixel's own. The call walks the pixels in a way that fails
/// on an image of several rows and no columns, so only an image that has
/// pixels is handed over.
#[verifier::external_body]
pub(crate) fn luminance_alpha(width: u32, height: u32, data: &Vec<u8>) -> (out: Vec<u8>)
    requires
        width > 0,
        height > 0,
        data@.len() == 4 * (width * height),
    ensures
        out@ == luminance_alpha_of(data@),
{
    let buffer = image::RgbaImage::from_raw(width, height, data.clone()).unwrap();
    image::DynamicImage::ImageRgba8(buffer).grayscale().into_luma_alpha8().into_raw()
}

/// Calls `DynamicImage::brighten` on an RGBA image.
///
/// Believed: `delta` is added to red, green and blue of every pixel and the
/// sum is clamped to 0..=255; alpha is kept. The sum is formed in `i32`, so
/// `delta` must leave room for a channel value. The call walks the pixels in
/// a way that fails on an image of several rows and no columns, so only an
/// image that has pixels is handed over.
#[verifier::external_body]
pub(crate) fn brighten_rgba(width: u32, height: u32, data: &Vec<u8>, delta: i32) -> (out: Vec<u8>)
    requires
        width > 0,
        height > 0,
        data@.len() == 4 * (width * height),
        delta + 255 <= i32::MAX,
    ensures
        out@ == brightened_bytes(data@, delta as int),
{
    let buffer = image::RgbaImage::from_raw(width, height, data.clone()).unwrap();
    image::DynamicImage::ImageRgba8(buffer).brighten(delta).into_rgba8().into_raw()
}

} // verus!
