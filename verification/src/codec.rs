//! Decoding encoded images into pixel grids and encoding grids as PNG.

use vstd::prelude::*;
use crate::error::FilterError;
use crate::grid::{bytes_of, pixels_of, GridView, PixelGrid};
use crate::imaging::{decoded, load_rgba, png_of, write_png};
use crate::signature::{detect, format_of, opens_as_rgba_png};

verus! {

/// The grid that a byte sequence decodes to, if it decodes: there is none
/// for input that opens with no known signature (empty input among it), for
/// input that the decoder rejects, and for a decoded buffer that does not
/// hold four bytes for each pixel.
pub open spec fn decoded_grid(bytes: Seq<u8>) -> Option<GridView> {
    match format_of(bytes) {
        None => None,
        Some(format) => match decoded(bytes, format) {
            Some((width, height, data)) => if data.len() == 4 * (width * height) {
                Some(
                    GridView {
                        width: width as nat,
                        height: height as nat,
                        pixels: pixels_of(data),
                    },
                )
            } else {
                None
            },
            None => None,
        },
    }
}

/// The PNG bitstream of a grid, if it has one: a grid without pixels has
/// none, and a grid has none where the encoder reports an error.
pub open spec fn encoding(grid: GridView) -> Option<Seq<u8>> {
    if grid.width == 0 || grid.height == 0 {
        None
    } else {
        png_of(grid.width as u32, grid.height as u32, bytes_of(grid.pixels))
    }
}

/// What encoding a grid returns: its PNG bitstream, which opens with the
/// header of an RGBA image of its dimensions, where it has one; an encode
/// error where it has none.
pub open spec fn encodes(grid: GridView, result: Result<Vec<u8>, FilterError>) -> bool {
    match encoding(grid) {
        Some(stream) => {
            &&& result matches Ok(bytes)
            &&& bytes@ == stream
            &&& opens_as_rgba_png(bytes@, grid.width as u32, grid.height as u32)
        },
        None => result matches Err(e) && e == FilterError::Encode,
    }
}

/// Turns what the decoder returned into a grid: the decoded image where its
/// buffer holds four bytes for each pixel, a decode error otherwise.
pub fn grid_from_loaded(loaded: Result<(u32, u32, Vec<u8>), image::ImageError>) -> (result: Result<
    PixelGrid,
    FilterError,
>)
    ensures
        match loaded {
            Ok(raw) => if raw.2@.len() == 4 * (raw.0 * raw.1) {
                result matches Ok(grid) && grid@ == (GridView {
                    width: raw.0 as nat,
                    height: raw.1 as nat,
                    pixels: pixels_of(raw.2@),
                })
            } else {
                result == Err::<PixelGrid, FilterError>(FilterError::Decode)
            },
            Err(_) => result == Err::<PixelGrid, FilterError>(FilterError::Decode),
        },
{
    match loaded {
        Ok(raw) => {
            let (width, height, data) = raw;
            match PixelGrid::new(width, height, data) {
                Some(grid) => Ok(grid),
                None => Err(FilterError::Decode),
            }
        },
        Err(_) => Err(FilterError::Decode),
    }
}

/// Decodes an encoded image into a grid of RGBA pixels. The format is told
/// from the first bytes; an image without an alpha channel comes out fully
/// opaque.
pub fn decode(bytes: &[u8]) -> (result: Result<PixelGrid, FilterError>)
    ensures
        match decoded_grid(bytes@) {
            Some(view) => result matches Ok(grid) && grid@ == view,
            None => result == Err::<PixelGrid, FilterError>(FilterError::Decode),
        },
{
    match detect(bytes) {
        Some(format) => grid_from_loaded(load_rgba(bytes, format)),
        None => Err(FilterError::Decode),
    }
}

/// Turns what the encoder returned into the result of encoding: the bytes
/// it wrote, or an encode error.
pub fn encoded_from(written: Result<Vec<u8>, image::ImageError>) -> (result: Result<
    Vec<u8>,
    FilterError,
>)
    ensures
        match written {
            Ok(bytes) => result == Ok::<Vec<u8>, FilterError>(bytes),
            Err(_) => result == Err::<Vec<u8>, FilterError>(FilterError::Encode),
        },
{
    match written {
        Ok(bytes) => Ok(bytes),
        Err(_) => Err(FilterError::Encode),
    }
}

/// Encodes a grid as a PNG with eight bits per channel and an alpha
/// channel. A grid without pixels is rejected; any other grid is encoded
/// unless the encoder reports an error for it.
pub fn encode(grid: &PixelGrid) -> (result: Result<Vec<u8>, FilterError>)
    ensures
        encodes(grid@, result),
{
    if grid.is_empty() {
        return Err(FilterError::Encode);
    }
    let data: &Vec<u8> = grid.as_bytes();
    encoded_from(write_png(grid.width(), grid.height(), data))
}

} // verus!
