//! The catalogue of filters and their application to a pixel grid.

use vstd::prelude::*;
use vstd::arithmetic::div_mod::{lemma_mod_bound, lemma_multiply_divide_lt};
use vstd::arithmetic::power2::pow2;
use crate::error::FilterError;
use crate::grid::{bytes_of, lemma_pixels_of_bytes, GridView, PixelGrid};
use crate::imaging::{brighten_rgba, luminance_alpha, luminance_alpha_of};
use crate::pixel::{lemma_luminance_in_range, Rgba};
use crate::contrast::{
    contrast_table,
    contrasted,
    contrasted_pixel,
    lemma_highest_reached_in_range,
    VINTAGE_CONTRAST,
};
use crate::scalar::{is_finite, scale, sign_set, significand, Class, Scalar};
use crate::tone::{
    blue_pixel,
    blueify_pixel,
    brightened_pixel,
    gray_pixel,
    invert_pixel,
    inverted_pixel,
    pink_pixel,
    pinkify_pixel,
    rotate_pixel,
    rotated_pixel,
    sepia_pixel,
    sepia_tone_pixel,
    vintage_pixel,
    warm_pixel,
    warm_up_pixel,
    VINTAGE_BRIGHTNESS,
};
use crate::vignette::{
    corner_squared,
    cubed,
    darken_pixel,
    held_of,
    pulled_of,
    vignetted_pixel,
};
use crate::wide::value;

verus! {

/// A filter with its parameters.
#[derive(Clone, Copy, Debug, PartialEq, Eq, Structural)]
pub enum Filter {
    /// Every colour channel becomes the luminance of the pixel.
    Grayscale,
    /// A pink tint: more red, less green, a little more blue.
    Pinkify,
    /// Every colour channel becomes its complement.
    Invert,
    /// Every colour channel moves by `delta`.
    Brighten { delta: i32 },
    /// A blue tint: less red, a little less green, more blue.
    Blueify,
    /// Every colour channel moves away from the midpoint (positive `value`)
    /// or towards it (negative `value`).
    Contrast { value: Scalar },
    /// A brown monochrome mixture.
    Sepia,
    /// Softer contrast, less light and a warmer tone.
    Vintage,
    /// Colours darken towards the corners, by `strength` at the corners.
    Vignette { strength: Scalar },
    /// The colour channels change places.
    Technicolor,
}

/// Whether a filter's parameters lie in its domain: a scalar parameter must
/// be a finite number.
pub open spec fn accepted(filter: Filter) -> bool {
    match filter {
        Filter::Contrast { value } => is_finite(value.bits),
        Filter::Vignette { strength } => is_finite(strength.bits),
        _ => true,
    }
}

/// What a filter makes of the pixel `p` with row-major index `index` in an
/// image of the given dimensions.
pub open spec fn transformed(filter: Filter, width: int, height: int, index: int, p: Rgba) -> Rgba {
    match filter {
        Filter::Grayscale => gray_pixel(p),
        Filter::Pinkify => pink_pixel(p),
        Filter::Invert => inverted_pixel(p),
        Filter::Brighten { delta } => brightened_pixel(p, delta as int),
        Filter::Blueify => blue_pixel(p),
        Filter::Contrast { value } => contrasted_pixel(p, value.bits),
        Filter::Sepia => sepia_pixel(p),
        Filter::Vintage => vintage_pixel(p),
        Filter::Vignette { strength } => vignetted_pixel(
            p,
            strength.bits,
            width,
            height,
            index % width,
            index / width,
        ),
        Filter::Technicolor => rotated_pixel(p),
    }
}

/// What a filter makes of a grid: the same dimensions, every pixel
/// transformed.
pub open spec fn applied(grid: GridView, filter: Filter) -> GridView {
    GridView {
        width: grid.width,
        height: grid.height,
        pixels: Seq::new(
            grid.pixels.len(),
            |i: int| transformed(filter, grid.width as int, grid.height as int, i, grid.pixels[i]),
        ),
    }
}

/// The transforms without parameters that this module computes pixel by
/// pixel.
#[derive(Clone, Copy)]
enum Point {
    Pinkify,
    Invert,
    Blueify,
    Sepia,
    Warm,
    Technicolor,
}

spec fn point_pixel(point: Point, p: Rgba) -> Rgba {
    match point {
        Point::Pinkify => pink_pixel(p),
        Point::Invert => inverted_pixel(p),
        Point::Blueify => blue_pixel(p),
        Point::Sepia => sepia_pixel(p),
        Point::Warm => warm_pixel(p),
        Point::Technicolor => rotated_pixel(p),
    }
}

spec fn point_pixels(point: Point, grid: GridView, count: nat) -> Seq<Rgba> {
    Seq::new(count, |i: int| point_pixel(point, grid.pixels[i]))
}

fn transform_pixel(point: Point, p: Rgba) -> (out: Rgba)
    ensures
        out == point_pixel(point, p),
{
    match point {
        Point::Pinkify => pinkify_pixel(p),
        Point::Invert => invert_pixel(p),
        Point::Blueify => blueify_pixel(p),
        Point::Sepia => sepia_tone_pixel(p),
        Point::Warm => warm_up_pixel(p),
        Point::Technicolor => rotate_pixel(p),
    }
}

fn map_grid(grid: &PixelGrid, point: Point) -> (out: PixelGrid)
    ensures
        out@ == (GridView {
            width: grid@.width,
            height: grid@.height,
            pixels: point_pixels(point, grid@, grid@.pixels.len()),
        }),
{
    let width: u32 = grid.width();
    let height: u32 = grid.height();
    let source: &Vec<u8> = grid.as_bytes();
    let count: usize = grid.len();
    let total: usize = source.len();
    let mut data: Vec<u8> = Vec::with_capacity(total);
    let mut i: usize = 0;
    while i < count
        invariant
            i <= count,
            count == grid@.pixels.len(),
            total == 4 * count,
            grid@.wf(),
            width == grid@.width,
            height == grid@.height,
            source@ == bytes_of(grid@.pixels),
            data@ == bytes_of(point_pixels(point, grid@, i as nat)),
        decreases count - i,
    {
        let p: Rgba = Rgba {
            r: source[4 * i],
            g: source[4 * i + 1],
            b: source[4 * i + 2],
            a: source[4 * i + 3],
        };
        assert(p == grid@.pixels[i as int]);
        let q: Rgba = transform_pixel(point, p);
        data.push(q.r);
        data.push(q.g);
        data.push(q.b);
        data.push(q.a);
        i += 1;
        assert(data@ =~= bytes_of(point_pixels(point, grid@, i as nat)));
    }
    proof {
        lemma_pixels_of_bytes(point_pixels(point, grid@, count as nat));
    }
    PixelGrid::assemble(width, height, data)
}

/// Changes the contrast of a grid by a finite amount.
fn contrast_grid(grid: &PixelGrid, amount: Scalar) -> (out: PixelGrid)
    requires
        is_finite(amount.bits),
    ensures
        out@ == applied(grid@, Filter::Contrast { value: amount }),
{
    let width: u32 = grid.width();
    let height: u32 = grid.height();
    let source: &Vec<u8> = grid.as_bytes();
    let count: usize = grid.len();
    let total: usize = source.len();
    let table: Vec<u8> = contrast_table(amount);
    let ghost changed = applied(grid@, Filter::Contrast { value: amount }).pixels;
    let mut data: Vec<u8> = Vec::with_capacity(total);
    let mut i: usize = 0;
    while i < count
        invariant
            i <= count,
            count == grid@.pixels.len(),
            total == 4 * count,
            grid@.wf(),
            table@.len() == 256,
            forall|c: int| 0 <= c < 256 ==> table@[c] == contrasted(c, amount.bits),
            source@ == bytes_of(grid@.pixels),
            changed == applied(grid@, Filter::Contrast { value: amount }).pixels,
            data@ == bytes_of(changed.take(i as int)),
        decreases count - i,
    {
        let r: u8 = table[source[4 * i] as usize];
        let g: u8 = table[source[4 * i + 1] as usize];
        let b: u8 = table[source[4 * i + 2] as usize];
        let a: u8 = source[4 * i + 3];
        proof {
            let p = grid@.pixels[i as int];
            lemma_highest_reached_in_range(255, p.r as int, amount.bits);
            lemma_highest_reached_in_range(255, p.g as int, amount.bits);
            lemma_highest_reached_in_range(255, p.b as int, amount.bits);
            assert(changed[i as int] == contrasted_pixel(p, amount.bits));
            assert(r == changed[i as int].r);
            assert(g == changed[i as int].g);
            assert(b == changed[i as int].b);
            assert(a == p.a);
        }
        data.push(r);
        data.push(g);
        data.push(b);
        data.push(a);
        i += 1;
        assert(data@ =~= bytes_of(changed.take(i as int)));
    }
    proof {
        assert(changed.take(count as int) =~= changed);
        lemma_pixels_of_bytes(changed);
    }
    PixelGrid::assemble(width, height, data)
}

/// Darkens a grid towards its corners by a finite strength.
fn vignette_grid(grid: &PixelGrid, strength: Scalar) -> (out: PixelGrid)
    requires
        is_finite(strength.bits),
    ensures
        out@ == applied(grid@, Filter::Vignette { strength }),
{
    let width: u32 = grid.width();
    let height: u32 = grid.height();
    let source: &Vec<u8> = grid.as_bytes();
    let count: usize = grid.len();
    let total: usize = source.len();
    let negative: bool = strength.has_sign();
    let sig: u32 = strength.significand_of();
    let k: u32 = strength.scale_of();
    let held: Vec<u32> = held_of(width, height);
    let ghost dark = applied(grid@, Filter::Vignette { strength }).pixels;
    let mut data: Vec<u8> = Vec::with_capacity(total);
    let mut i: usize = 0;
    while i < count
        invariant
            i <= count,
            count == grid@.pixels.len(),
            total == 4 * count,
            grid@.wf(),
            width == grid@.width,
            height == grid@.height,
            negative == sign_set(strength.bits),
            sig == significand(strength.bits),
            sig < 0x100_0000,
            k == scale(strength.bits),
            k <= 255,
            value(held@) == cubed(corner_squared(width as int, height as int)) * pow2(600),
            source@ == bytes_of(grid@.pixels),
            dark == applied(grid@, Filter::Vignette { strength }).pixels,
            data@ == bytes_of(dark.take(i as int)),
        decreases count - i,
    {
        let p: Rgba = Rgba {
            r: source[4 * i],
            g: source[4 * i + 1],
            b: source[4 * i + 2],
            a: source[4 * i + 3],
        };
        assert(p == grid@.pixels[i as int]);
        proof {
            assert(width > 0) by (nonlinear_arith)
                requires
                    0 <= i < width * height,
            ;
            lemma_mod_bound(i as int, width as int);
            lemma_multiply_divide_lt(i as int, width as int, height as int);
        }
        let x: u64 = (i as u64) % (width as u64);
        let y: u64 = (i as u64) / (width as u64);
        let pulled: Vec<u32> = pulled_of(width, height, x as u32, y as u32, k);
        let q: Rgba = darken_pixel(p, negative, sig, &pulled, &held);
        assert(q == dark[i as int]);
        data.push(q.r);
        data.push(q.g);
        data.push(q.b);
        data.push(q.a);
        i += 1;
        assert(data@ =~= bytes_of(dark.take(i as int)));
    }
    proof {
        assert(dark.take(count as int) =~= dark);
        lemma_pixels_of_bytes(dark);
    }
    PixelGrid::assemble(width, height, data)
}

/// A grid without pixels is its own image under every filter.
fn unchanged(grid: &PixelGrid, filter: Filter) -> (out: PixelGrid)
    requires
        grid@.pixels.len() == 0,
    ensures
        out@ == applied(grid@, filter),
{
    let out: PixelGrid = grid.duplicate();
    assert(out@.pixels =~= applied(grid@, filter).pixels);
    out
}

/// A grid that has pixels has a width and a height.
proof fn lemma_has_extent(grid: GridView)
    requires
        grid.wf(),
        grid.pixels.len() > 0,
    ensures
        grid.width > 0,
        grid.height > 0,
{
    assert(grid.width > 0 && grid.height > 0) by (nonlinear_arith)
        requires
            grid.width * grid.height > 0,
    ;
}

fn gray_grid(grid: &PixelGrid) -> (out: PixelGrid)
    ensures
        out@ == applied(grid@, Filter::Grayscale),
{
    let count: usize = grid.len();
    if count == 0 {
        return unchanged(grid, Filter::Grayscale);
    }
    let width: u32 = grid.width();
    let height: u32 = grid.height();
    let source: &Vec<u8> = grid.as_bytes();
    proof {
        lemma_has_extent(grid@);
    }
    let pairs: Vec<u8> = luminance_alpha(width, height, source);
    let ghost gray = applied(grid@, Filter::Grayscale).pixels;
    let total: usize = source.len();
    let mut data: Vec<u8> = Vec::with_capacity(total);
    let mut i: usize = 0;
    while i < count
        invariant
            i <= count,
            count == grid@.pixels.len(),
            total == 4 * count,
            grid@.wf(),
            source@ == bytes_of(grid@.pixels),
            pairs@ == luminance_alpha_of(source@),
            gray == applied(grid@, Filter::Grayscale).pixels,
            data@ == bytes_of(gray.take(i as int)),
        decreases count - i,
    {
        let level: u8 = pairs[2 * i];
        let alpha: u8 = pairs[2 * i + 1];
        proof {
            let p = grid@.pixels[i as int];
            lemma_luminance_in_range(p.r as int, p.g as int, p.b as int);
            assert(gray[i as int] == gray_pixel(p));
            assert(level == gray_pixel(p).r);
            assert(alpha == p.a);
        }
        data.push(level);
        data.push(level);
        data.push(level);
        data.push(alpha);
        i += 1;
        assert(data@ =~= bytes_of(gray.take(i as int)));
    }
    proof {
        assert(gray.take(count as int) =~= gray);
        lemma_pixels_of_bytes(gray);
    }
    PixelGrid::assemble(width, height, data)
}

fn brighten_grid(grid: &PixelGrid, delta: i32) -> (out: PixelGrid)
    ensures
        out@ == applied(grid@, Filter::Brighten { delta }),
{
    if grid.len() == 0 {
        return unchanged(grid, Filter::Brighten { delta });
    }
    let width: u32 = grid.width();
    let height: u32 = grid.height();
    let source: &Vec<u8> = grid.as_bytes();
    proof {
        lemma_has_extent(grid@);
    }
    let bounded: i32 = if delta > 255 {
        255
    } else if delta < -255 {
        -255
    } else {
        delta
    };
    let data: Vec<u8> = brighten_rgba(width, height, source, bounded);
    let out = PixelGrid::assemble(width, height, data);
    assert(out@.pixels =~= applied(grid@, Filter::Brighten { delta }).pixels);
    out
}

fn vintage_grid(grid: &PixelGrid) -> (out: PixelGrid)
    ensures
        out@ == applied(grid@, Filter::Vintage),
{
    let softened: PixelGrid = contrast_grid(grid, Scalar::from_bits(VINTAGE_CONTRAST));
    let dimmed: PixelGrid = brighten_grid(&softened, VINTAGE_BRIGHTNESS);
    let out: PixelGrid = map_grid(&dimmed, Point::Warm);
    assert(out@.pixels =~= applied(grid@, Filter::Vintage).pixels);
    out
}

/// Applies a filter to a grid. The result is a new grid of the same
/// dimensions; the filter is refused, and nothing is computed, where a
/// scalar parameter is NaN or infinite.
pub fn apply(grid: &PixelGrid, filter: Filter) -> (result: Result<PixelGrid, FilterError>)
    ensures
        match result {
            Ok(out) => accepted(filter) && out@ == applied(grid@, filter),
            Err(e) => !accepted(filter) && e == FilterError::InvalidParameter,
        },
{
    match filter {
        Filter::Grayscale => Ok(gray_grid(grid)),
        Filter::Brighten { delta } => Ok(brighten_grid(grid, delta)),
        Filter::Vintage => Ok(vintage_grid(grid)),
        Filter::Pinkify => Ok(pointwise(grid, filter, Point::Pinkify)),
        Filter::Invert => Ok(pointwise(grid, filter, Point::Invert)),
        Filter::Blueify => Ok(pointwise(grid, filter, Point::Blueify)),
        Filter::Sepia => Ok(pointwise(grid, filter, Point::Sepia)),
        Filter::Technicolor => Ok(pointwise(grid, filter, Point::Technicolor)),
        Filter::Contrast { value } => match value.classify() {
            Class::Nan => Err(FilterError::InvalidParameter),
            Class::Infinite => Err(FilterError::InvalidParameter),
            _ => Ok(contrast_grid(grid, value)),
        },
        Filter::Vignette { strength } => match strength.classify() {
            Class::Nan => Err(FilterError::InvalidParameter),
            Class::Infinite => Err(FilterError::InvalidParameter),
            _ => Ok(vignette_grid(grid, strength)),
        },
    }
}

/// Whether `point` is the pixel transform of `filter`.
spec fn computes(point: Point, filter: Filter) -> bool {
    match point {
        Point::Pinkify => filter == Filter::Pinkify,
        Point::Invert => filter == Filter::Invert,
        Point::Blueify => filter == Filter::Blueify,
        Point::Sepia => filter == Filter::Sepia,
        Point::Warm => false,
        Point::Technicolor => filter == Filter::Technicolor,
    }
}

fn pointwise(grid: &PixelGrid, filter: Filter, point: Point) -> (out: PixelGrid)
    requires
        computes(point, filter),
    ensures
        out@ == applied(grid@, filter),
{
    let out: PixelGrid = map_grid(grid, point);
    assert(out@.pixels =~= applied(grid@, filter).pixels);
    out
}

} // verus!
