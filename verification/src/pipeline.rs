//! The entry points: encoded image in, PNG out.
//!
//! Every filter decodes its input, transforms the pixels and encodes the
//! result. Nothing is kept between calls.
//!
//! A blur takes two steps. This library computes on integers alone, and a
//! Gaussian convolution is not among its transforms: `blur` decodes the
//! image and decides what is to be done, the caller convolves the grid where
//! that is asked for, and `finish_blur` takes the convolved bytes and
//! encodes them.

use vstd::prelude::*;
use crate::codec::{decode, decoded_grid, encode, encodes};
use crate::error::FilterError;
use crate::filter::{accepted, applied, apply, Filter};
use crate::grid::{pixels_of, GridView, PixelGrid};
use crate::scalar::{at_most_zero, class_of, is_nan, Class, Scalar};

verus! {

/// What filtering encoded bytes may return. Input that does not decode
/// gives a decode error and a parameter outside its domain gives a
/// parameter error; otherwise the result is that of encoding the filtered
/// grid.
pub open spec fn filters(
    image_data: Seq<u8>,
    filter: Filter,
    result: Result<Vec<u8>, FilterError>,
) -> bool {
    match decoded_grid(image_data) {
        None => result matches Err(e) && e == FilterError::Decode,
        Some(grid) => if accepted(filter) {
            encodes(applied(grid, filter), result)
        } else {
            result matches Err(e) && e == FilterError::InvalidParameter
        },
    }
}

/// Decodes an image, applies a filter and encodes the result as PNG.
pub fn run(image_data: &[u8], filter: Filter) -> (result: Result<Vec<u8>, FilterError>)
    ensures
        filters(image_data@, filter, result),
{
    let grid: PixelGrid = match decode(image_data) {
        Ok(grid) => grid,
        Err(e) => {
            return Err(e);
        },
    };
    match apply(&grid, filter) {
        Ok(out) => encode(&out),
        Err(e) => Err(e),
    }
}

/// Turns an image to shades of gray.
pub fn grayscale(image_data: &[u8]) -> (result: Result<Vec<u8>, FilterError>)
    ensures
        filters(image_data@, Filter::Grayscale, result),
{
    run(image_data, Filter::Grayscale)
}

/// Tints an image pink.
pub fn pinkify(image_data: &[u8]) -> (result: Result<Vec<u8>, FilterError>)
    ensures
        filters(image_data@, Filter::Pinkify, result),
{
    run(image_data, Filter::Pinkify)
}

/// Inverts the colours of an image.
pub fn invert(image_data: &[u8]) -> (result: Result<Vec<u8>, FilterError>)
    ensures
        filters(image_data@, Filter::Invert, result),
{
    run(image_data, Filter::Invert)
}

/// Makes an image lighter by `value`, or darker where `value` is negative.
pub fn brighten(image_data: &[u8], value: i32) -> (result: Result<Vec<u8>, FilterError>)
    ensures
        filters(image_data@, Filter::Brighten { delta: value }, result),
{
    run(image_data, Filter::Brighten { delta: value })
}

/// Tints an image blue.
pub fn blueify(image_data: &[u8]) -> (result: Result<Vec<u8>, FilterError>)
    ensures
        filters(image_data@, Filter::Blueify, result),
{
    run(image_data, Filter::Blueify)
}

/// Raises the contrast of an image by `value`, or lowers it where `value` is
/// negative.
pub fn contrast(image_data: &[u8], value: Scalar) -> (result: Result<Vec<u8>, FilterError>)
    ensures
        filters(image_data@, Filter::Contrast { value }, result),
{
    run(image_data, Filter::Contrast { value })
}

/// Turns an image to sepia.
pub fn sepia(image_data: &[u8]) -> (result: Result<Vec<u8>, FilterError>)
    ensures
        filters(image_data@, Filter::Sepia, result),
{
    run(image_data, Filter::Sepia)
}

/// Gives an image a vintage look.
pub fn vintage(image_data: &[u8]) -> (result: Result<Vec<u8>, FilterError>)
    ensures
        filters(image_data@, Filter::Vintage, result),
{
    run(image_data, Filter::Vintage)
}

/// Darkens an image towards its corners.
pub fn vignette(image_data: &[u8], strength: Scalar) -> (result: Result<Vec<u8>, FilterError>)
    ensures
        filters(image_data@, Filter::Vignette { strength }, result),
{
    run(image_data, Filter::Vignette { strength })
}

/// Moves the colour channels of an image round.
pub fn technicolor(image_data: &[u8]) -> (result: Result<Vec<u8>, FilterError>)
    ensures
        filters(image_data@, Filter::Technicolor, result),
{
    run(image_data, Filter::Technicolor)
}

/// What a blur has to do with a grid.
#[derive(Clone, Copy, Debug, PartialEq, Eq, Structural)]
pub enum BlurPlan {
    /// The grid is the result as it stands.
    Keep,
    /// The grid is to be convolved with a Gaussian whose standard deviation
    /// is the radius.
    Convolve,
}

/// What a blur of the given radius has to do with an image of the given
/// dimensions. A radius that is no number is refused. A radius of zero or
/// less asks for nothing, and an image without pixels has nothing to blur.
/// Any other radius must be one that a Gaussian can be built from: a normal
/// number, neither infinite nor subnormal.
pub open spec fn blur_plan(width: nat, height: nat, radius: Scalar) -> Result<
    BlurPlan,
    FilterError,
> {
    if is_nan(radius.bits) {
        Err(FilterError::InvalidParameter)
    } else if at_most_zero(radius.bits) || width == 0 || height == 0 {
        Ok(BlurPlan::Keep)
    } else if class_of(radius.bits) == Class::Normal {
        Ok(BlurPlan::Convolve)
    } else {
        Err(FilterError::InvalidParameter)
    }
}

/// Decides what a blur has to do.
pub fn plan_blur(grid: &PixelGrid, radius: Scalar) -> (plan: Result<BlurPlan, FilterError>)
    ensures
        plan == blur_plan(grid@.width, grid@.height, radius),
{
    match radius.classify() {
        Class::Nan => Err(FilterError::InvalidParameter),
        Class::Zero => Ok(BlurPlan::Keep),
        class => if radius.has_sign() || grid.is_empty() {
            Ok(BlurPlan::Keep)
        } else {
            match class {
                Class::Normal => Ok(BlurPlan::Convolve),
                _ => Err(FilterError::InvalidParameter),
            }
        },
    }
}

/// Takes the channel bytes that convolving `grid` gave. They make a grid of
/// the same dimensions; bytes that do not fit these dimensions are refused.
pub fn accept_blurred(grid: &PixelGrid, convolved: Vec<u8>) -> (result: Result<
    PixelGrid,
    FilterError,
>)
    ensures
        match result {
            Ok(out) => convolved@.len() == 4 * (grid@.width * grid@.height) && out@ == (GridView {
                width: grid@.width,
                height: grid@.height,
                pixels: pixels_of(convolved@),
            }),
            Err(e) => convolved@.len() != 4 * (grid@.width * grid@.height) && e
                == FilterError::InvalidParameter,
        },
{
    match PixelGrid::new(grid.width(), grid.height(), convolved) {
        Some(out) => Ok(out),
        None => Err(FilterError::InvalidParameter),
    }
}

/// Where a blur stands after its first step.
pub enum BlurStep {
    /// The blur is done: the PNG of the image as it was.
    Done(Vec<u8>),
    /// The decoded image is to be convolved and handed to `finish_blur`.
    Convolve(PixelGrid),
}

/// What the first step of a blur may return.
pub open spec fn blur_begins(
    image_data: Seq<u8>,
    radius: Scalar,
    result: Result<BlurStep, FilterError>,
) -> bool {
    match decoded_grid(image_data) {
        None => result matches Err(e) && e == FilterError::Decode,
        Some(grid) => match blur_plan(grid.width, grid.height, radius) {
            Err(_) => result matches Err(e) && e == FilterError::InvalidParameter,
            Ok(BlurPlan::Keep) => match result {
                Ok(BlurStep::Done(bytes)) => encodes(grid, Ok(bytes)),
                Ok(BlurStep::Convolve(_)) => false,
                Err(e) => encodes(grid, Err(e)),
            },
            Ok(BlurPlan::Convolve) => result matches Ok(BlurStep::Convolve(g)) && g@ == grid,
        },
    }
}

/// The first step of a blur: decodes the image and either finishes, where
/// the radius asks for no blurring, or hands back the grid to convolve.
pub fn blur(image_data: &[u8], radius: Scalar) -> (result: Result<BlurStep, FilterError>)
    ensures
        blur_begins(image_data@, radius, result),
{
    let grid: PixelGrid = match decode(image_data) {
        Ok(grid) => grid,
        Err(e) => {
            return Err(e);
        },
    };
    match plan_blur(&grid, radius) {
        Err(e) => Err(e),
        Ok(BlurPlan::Keep) => match encode(&grid) {
            Ok(bytes) => Ok(BlurStep::Done(bytes)),
            Err(e) => Err(e),
        },
        Ok(BlurPlan::Convolve) => Ok(BlurStep::Convolve(grid)),
    }
}

/// The last step of a blur: takes the channel bytes that convolving `grid`
/// gave and encodes them as an image of the same dimensions.
pub fn finish_blur(grid: &PixelGrid, convolved: Vec<u8>) -> (result: Result<Vec<u8>, FilterError>)
    ensures
        if convolved@.len() == 4 * (grid@.width * grid@.height) {
            encodes(
                GridView {
                    width: grid@.width,
                    height: grid@.height,
                    pixels: pixels_of(convolved@),
                },
                result,
            )
        } else {
            result matches Err(e) && e == FilterError::InvalidParameter
        },
{
    match accept_blurred(grid, convolved) {
        Ok(out) => encode(&out),
        Err(e) => Err(e),
    }
}

} // verus!
