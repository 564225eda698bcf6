//! What holds of every filter and of the codec.

use vstd::prelude::*;
use vstd::arithmetic::power2::pow2;
use crate::codec::{decoded_grid, encodes};
use crate::error::FilterError;
use crate::filter::{applied, transformed, Filter};
use crate::grid::{channel_of, GridView};
use crate::pixel::{brightened, inverted, luminance, mixed, scaled, Rgba};
use crate::pipeline::{blur_plan, BlurPlan};
use crate::contrast::{contrasted, lemma_highest_reached_in_range, VINTAGE_CONTRAST};
use crate::scalar::{at_most_zero, scale, sign_set, significand, Scalar};
use crate::signature::recognised;
use crate::tone::VINTAGE_BRIGHTNESS;
use crate::vignette::{
    corner_squared,
    cubed,
    darkened,
    distance_squared,
    lemma_highest_in_range,
};

verus! {

/// The integer that a filter's formula gives for colour channel `k` (0 for
/// red, 1 for green, 2 for blue) of a pixel, before it is stored in a byte.
pub open spec fn level(
    filter: Filter,
    width: int,
    height: int,
    index: int,
    p: Rgba,
    k: int,
) -> int {
    let c = channel_of(p, k) as int;
    match filter {
        Filter::Grayscale => luminance(p.r as int, p.g as int, p.b as int),
        Filter::Pinkify => scaled(
            c,
            if k == 0 {
                12
            } else if k == 1 {
                8
            } else {
                11
            },
        ),
        Filter::Invert => inverted(c),
        Filter::Brighten { delta } => brightened(c, delta as int),
        Filter::Blueify => scaled(
            c,
            if k == 0 {
                8
            } else if k == 1 {
                9
            } else {
                12
            },
        ),
        Filter::Contrast { value } => contrasted(c, value.bits),
        Filter::Sepia => if k == 0 {
            mixed(p.r as int, p.g as int, p.b as int, 393, 769, 189)
        } else if k == 1 {
            mixed(p.r as int, p.g as int, p.b as int, 349, 686, 168)
        } else {
            mixed(p.r as int, p.g as int, p.b as int, 272, 534, 131)
        },
        Filter::Vintage => {
            let dimmed = brightened(
                contrasted(c, VINTAGE_CONTRAST),
                VINTAGE_BRIGHTNESS as int,
            );
            if k == 0 {
                scaled(dimmed, 11)
            } else if k == 1 {
                dimmed
            } else {
                scaled(dimmed, 9)
            }
        },
        Filter::Vignette { strength } => darkened(
            c,
            strength.bits,
            distance_squared(width, height, index % width, index / width),
            corner_squared(width, height),
        ),
        Filter::Technicolor => channel_of(p, (k + 1) % 3) as int,
    }
}

/// Clamping: for every filter and every pixel, the integer that the formula
/// gives for a colour channel lies in 0..=255, and the byte in the output is
/// that integer. Nothing wraps.
pub proof fn lemma_channels_clamped(
    filter: Filter,
    width: int,
    height: int,
    index: int,
    p: Rgba,
    k: int,
)
    requires
        0 <= k < 3,
    ensures
        0 <= level(filter, width, height, index, p, k) <= 255,
        channel_of(transformed(filter, width, height, index, p), k) as int == level(
            filter,
            width,
            height,
            index,
            p,
            k,
        ),
{
    if let Filter::Contrast { value } = filter {
        lemma_highest_reached_in_range(255, channel_of(p, k) as int, value.bits);
    }
    if filter == Filter::Vintage {
        lemma_highest_reached_in_range(255, channel_of(p, k) as int, VINTAGE_CONTRAST);
    }
    if let Filter::Vignette { strength } = filter {
        lemma_highest_in_range(
            255,
            channel_of(p, k) as int,
            sign_set(strength.bits),
            significand(strength.bits),
            cubed(distance_squared(width, height, index % width, index / width)) * pow2(
                (4 * scale(strength.bits)) as nat,
            ),
            cubed(corner_squared(width, height)) * pow2(600),
        );
    }
}

/// Alpha is kept: no filter changes the alpha of any pixel.
pub proof fn lemma_alpha_kept(filter: Filter, grid: GridView, i: int)
    requires
        0 <= i < grid.pixels.len(),
    ensures
        applied(grid, filter).pixels[i].a == grid.pixels[i].a,
{
}

/// Dimensions are kept: a filtered grid has the width, the height and the
/// number of pixels of the grid it was made from.
pub proof fn lemma_dimensions_kept(filter: Filter, grid: GridView)
    ensures
        applied(grid, filter).width == grid.width,
        applied(grid, filter).height == grid.height,
        applied(grid, filter).pixels.len() == grid.pixels.len(),
        grid.wf() ==> applied(grid, filter).wf(),
{
}

/// Inverting is its own inverse: a grid inverted twice is the grid.
pub proof fn lemma_invert_is_involution(grid: GridView)
    ensures
        applied(applied(grid, Filter::Invert), Filter::Invert) == grid,
{
    assert(applied(applied(grid, Filter::Invert), Filter::Invert).pixels =~= grid.pixels);
}

/// A blur with a radius of zero or less keeps the grid as it stands,
/// whatever the grid.
pub proof fn lemma_blur_keeps(width: nat, height: nat, radius: Scalar)
    requires
        at_most_zero(radius.bits),
    ensures
        blur_plan(width, height, radius) == Ok::<BlurPlan, FilterError>(BlurPlan::Keep),
{
}

/// Nothing decodes from nothing: no signature is empty, so an empty buffer
/// is no image.
pub proof fn lemma_empty_input_does_not_decode(bytes: Seq<u8>)
    requires
        bytes.len() == 0,
    ensures
        decoded_grid(bytes) is None,
{
}

/// The output of a successful encoding opens with a signature that decoding
/// recognises.
pub proof fn lemma_encoded_is_recognised(grid: GridView, result: Result<Vec<u8>, FilterError>)
    requires
        encodes(grid, result),
        result is Ok,
    ensures
        recognised(result->Ok_0@),
{
}

/// Encoding is repeatable: whenever the same grid is encoded twice, both
/// calls succeed with the same bytes or both fail with the same error.
pub proof fn lemma_encode_repeatable(
    grid: GridView,
    first: Result<Vec<u8>, FilterError>,
    second: Result<Vec<u8>, FilterError>,
)
    requires
        encodes(grid, first),
        encodes(grid, second),
    ensures
        first is Ok <==> second is Ok,
        first is Ok ==> first->Ok_0@ == second->Ok_0@,
        first is Err ==> first->Err_0 == second->Err_0,
{
}

} // verus!
