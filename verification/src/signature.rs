//! Telling from its first bytes whether a file can be an image.
//!
//! Every supported container format opens with a fixed signature. A buffer
//! that opens with none of them is no image, whatever follows.

use vstd::prelude::*;

verus! {

pub const PNG: [u8; 8] = [0x89, 0x50, 0x4e, 0x47, 0x0d, 0x0a, 0x1a, 0x0a];

/// The length, 13, and the type of the header chunk that follows the
/// signature of a PNG file.
pub const PNG_HEADER_CHUNK: [u8; 8] = [0x00, 0x00, 0x00, 0x0d, 0x49, 0x48, 0x44, 0x52];

pub const JPEG: [u8; 3] = [0xff, 0xd8, 0xff];

pub const GIF_89A: [u8; 6] = [0x47, 0x49, 0x46, 0x38, 0x39, 0x61];

pub const GIF_87A: [u8; 6] = [0x47, 0x49, 0x46, 0x38, 0x37, 0x61];

/// The first four bytes of a RIFF container.
pub const RIFF: [u8; 4] = [0x52, 0x49, 0x46, 0x46];

/// The form type of a WebP image, at byte 8 of its RIFF container.
pub const WEBP: [u8; 4] = [0x57, 0x45, 0x42, 0x50];

pub const TIFF_BIG_ENDIAN: [u8; 4] = [0x4d, 0x4d, 0x00, 0x2a];

pub const TIFF_LITTLE_ENDIAN: [u8; 4] = [0x49, 0x49, 0x2a, 0x00];

pub const DDS: [u8; 4] = [0x44, 0x44, 0x53, 0x20];

pub const BMP: [u8; 2] = [0x42, 0x4d];

pub const ICO: [u8; 4] = [0x00, 0x00, 0x01, 0x00];

pub const RADIANCE: [u8; 10] = [0x23, 0x3f, 0x52, 0x41, 0x44, 0x49, 0x41, 0x4e, 0x43, 0x45];

/// The high bytes of the size of the first box of an AVIF file.
pub const AVIF_SIZE: [u8; 2] = [0x00, 0x00];

/// The type and brand of the first box of an AVIF file, at byte 4.
pub const AVIF_BRAND: [u8; 8] = [0x66, 0x74, 0x79, 0x70, 0x61, 0x76, 0x69, 0x66];

pub const OPEN_EXR: [u8; 4] = [0x76, 0x2f, 0x31, 0x01];

pub const QOI: [u8; 4] = [0x71, 0x6f, 0x69, 0x66];

pub const FARBFELD: [u8; 8] = [0x66, 0x61, 0x72, 0x62, 0x66, 0x65, 0x6c, 0x64];

/// Whether `signature` stands in `bytes` from position `at` on.
pub open spec fn stands_at(bytes: Seq<u8>, at: int, signature: Seq<u8>) -> bool {
    at + signature.len() <= bytes.len() && forall|i: int|
        0 <= i < signature.len() ==> bytes[at + i] == signature[i]
}

/// The four bytes of a number, the most significant first.
pub open spec fn big_endian(n: u32) -> Seq<u8> {
    seq![
        (n / 0x100_0000) as u8,
        (n / 0x1_0000 % 0x100) as u8,
        (n / 0x100 % 0x100) as u8,
        (n % 0x100) as u8,
    ]
}

/// Whether `bytes` open as a PNG file of the given dimensions with eight
/// bits to a channel and the channels red, green, blue and alpha: the
/// signature, then the header chunk with the width, the height, the bit
/// depth 8 and the colour type 6.
pub open spec fn opens_as_rgba_png(bytes: Seq<u8>, width: u32, height: u32) -> bool {
    &&& stands_at(bytes, 0, PNG@)
    &&& stands_at(bytes, 8, PNG_HEADER_CHUNK@)
    &&& stands_at(bytes, 16, big_endian(width))
    &&& stands_at(bytes, 20, big_endian(height))
    &&& bytes.len() >= 26
    &&& bytes[24] == 8
    &&& bytes[25] == 6
}

/// Whether `bytes` open like a portable anymap: the letter P and a digit
/// from 1 to 7.
pub open spec fn opens_anymap(bytes: Seq<u8>) -> bool {
    bytes.len() >= 2 && bytes[0] == 0x50 && 0x31 <= bytes[1] <= 0x37
}

/// The container formats that are told by their signatures.
#[derive(Clone, Copy, Debug, PartialEq, Eq, Structural)]
pub enum Format {
    Png,
    Jpeg,
    Gif,
    WebP,
    Tiff,
    Dds,
    Bmp,
    Ico,
    Hdr,
    Avif,
    OpenExr,
    Qoi,
    Pnm,
    Farbfeld,
}

/// The format whose signature `bytes` open with. Where several signatures
/// stand, the one named first here decides.
pub open spec fn format_of(bytes: Seq<u8>) -> Option<Format> {
    if stands_at(bytes, 0, PNG@) {
        Some(Format::Png)
    } else if stands_at(bytes, 0, JPEG@) {
        Some(Format::Jpeg)
    } else if stands_at(bytes, 0, GIF_89A@) || stands_at(bytes, 0, GIF_87A@) {
        Some(Format::Gif)
    } else if stands_at(bytes, 0, RIFF@) && stands_at(bytes, 8, WEBP@) {
        Some(Format::WebP)
    } else if stands_at(bytes, 0, TIFF_BIG_ENDIAN@) || stands_at(bytes, 0, TIFF_LITTLE_ENDIAN@) {
        Some(Format::Tiff)
    } else if stands_at(bytes, 0, DDS@) {
        Some(Format::Dds)
    } else if stands_at(bytes, 0, BMP@) {
        Some(Format::Bmp)
    } else if stands_at(bytes, 0, ICO@) {
        Some(Format::Ico)
    } else if stands_at(bytes, 0, RADIANCE@) {
        Some(Format::Hdr)
    } else if stands_at(bytes, 0, AVIF_SIZE@) && stands_at(bytes, 4, AVIF_BRAND@) {
        Some(Format::Avif)
    } else if stands_at(bytes, 0, OPEN_EXR@) {
        Some(Format::OpenExr)
    } else if stands_at(bytes, 0, QOI@) {
        Some(Format::Qoi)
    } else if opens_anymap(bytes) {
        Some(Format::Pnm)
    } else if stands_at(bytes, 0, FARBFELD@) {
        Some(Format::Farbfeld)
    } else {
        None
    }
}

/// Whether `bytes` open with the signature of a supported format.
pub open spec fn recognised(bytes: Seq<u8>) -> bool {
    format_of(bytes) is Some
}

/// Whether `signature` stands in `bytes` from position `at` on.
pub fn has_at(bytes: &[u8], at: usize, signature: &[u8]) -> (found: bool)
    ensures
        found == stands_at(bytes@, at as int, signature@),
{
    let total: usize = bytes.len();
    let length: usize = signature.len();
    if total < at || total - at < length {
        return false;
    }
    let mut i: usize = 0;
    while i < length
        invariant
            i <= length,
            length == signature@.len(),
            total == bytes@.len(),
            at + length <= total,
            forall|k: int| 0 <= k < i ==> bytes@[at + k] == signature@[k],
        decreases length - i,
    {
        if bytes[at + i] != signature[i] {
            return false;
        }
        i += 1;
    }
    true
}

/// Tells the format of `bytes` from their signature.
pub fn detect(bytes: &[u8]) -> (format: Option<Format>)
    ensures
        format == format_of(bytes@),
{
    if has_at(bytes, 0, &PNG) {
        Some(Format::Png)
    } else if has_at(bytes, 0, &JPEG) {
        Some(Format::Jpeg)
    } else if has_at(bytes, 0, &GIF_89A) || has_at(bytes, 0, &GIF_87A) {
        Some(Format::Gif)
    } else if has_at(bytes, 0, &RIFF) && has_at(bytes, 8, &WEBP) {
        Some(Format::WebP)
    } else if has_at(bytes, 0, &TIFF_BIG_ENDIAN) || has_at(bytes, 0, &TIFF_LITTLE_ENDIAN) {
        Some(Format::Tiff)
    } else if has_at(bytes, 0, &DDS) {
        Some(Format::Dds)
    } else if has_at(bytes, 0, &BMP) {
        Some(Format::Bmp)
    } else if has_at(bytes, 0, &ICO) {
        Some(Format::Ico)
    } else if has_at(bytes, 0, &RADIANCE) {
        Some(Format::Hdr)
    } else if has_at(bytes, 0, &AVIF_SIZE) && has_at(bytes, 4, &AVIF_BRAND) {
        Some(Format::Avif)
    } else if has_at(bytes, 0, &OPEN_EXR) {
        Some(Format::OpenExr)
    } else if has_at(bytes, 0, &QOI) {
        Some(Format::Qoi)
    } else if bytes.len() >= 2 && bytes[0] == 0x50 && 0x31 <= bytes[1] && bytes[1] <= 0x37 {
        Some(Format::Pnm)
    } else if has_at(bytes, 0, &FARBFELD) {
        Some(Format::Farbfeld)
    } else {
        None
    }
}

/// Whether `bytes` open with the signature of a supported format.
pub fn is_recognised(bytes: &[u8]) -> (found: bool)
    ensures
        found == recognised(bytes@),
{
    detect(bytes).is_some()
}

} // verus!
