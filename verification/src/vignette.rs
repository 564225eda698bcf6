//! The vignette: darkening that grows with the distance from the centre.
//!
//! A channel `c` of a pixel becomes `c * (1 - s * (d / m)^1.5)`, rounded
//! down and clamped, where `s` is the strength, `d` the distance of the
//! pixel from the centre of the image and `m` the distance from the centre
//! to a corner. The power is irrational as a rule, so the result is not
//! computed but decided: a value `v` is not above the product exactly when
//! `c * s * (d / m)^1.5 <= c - v`, and between non-negative numbers that is
//! an inequality of fourth powers, which holds integers alone. With
//! `(d / m)^2 = far / corner` and `s = sig * 2^(k - 150)` it reads
//!
//! `(c * sig)^4 * far^3 * 2^(4 k) <= (c - v)^4 * corner^3 * 2^600`.
//!
//! Distances are measured in half pixels, so that the centre of an image of
//! any width is an integer.

use vstd::prelude::*;
use vstd::arithmetic::power2::pow2;
use crate::pixel::Rgba;
use crate::scalar::{is_finite, scale, sign_set, significand, Class, Scalar};
use crate::wide::{at_most, doubled, one, times, value, FACTOR_MAX};

verus! {

/// The squared distance, in half pixels, of `position` from the middle of
/// `extent` positions.
pub open spec fn offset_squared(extent: int, position: int) -> int {
    (2 * position - extent) * (2 * position - extent)
}

/// The squared distance, in half pixels, of the pixel in column `x` of row
/// `y` from the centre of a `width` by `height` image.
pub open spec fn distance_squared(width: int, height: int, x: int, y: int) -> int {
    offset_squared(width, x) + offset_squared(height, y)
}

/// The squared distance, in half pixels, from the centre to a corner.
pub open spec fn corner_squared(width: int, height: int) -> int {
    width * width + height * height
}

/// The third power of `a`.
pub open spec fn cubed(a: int) -> int {
    a * a * a
}

/// `base` times the fourth power of `a`.
pub open spec fn raised(base: int, a: int) -> int {
    base * a * a * a * a
}

/// Whether `v` is at most `c * (1 - s * t)`, where the strength `s` has the
/// magnitude `sig * 2^(k - 150)` and is negative or not, and the falloff `t`
/// is the fourth root of `pulled / 2^(4 k)` over `held / 2^600`.
///
/// For a strength that is not negative this is `c * s * t <= c - v`; for a
/// negative one it is `v - c <= c * |s| * t`.
pub open spec fn stays_below(
    v: int,
    c: int,
    negative: bool,
    sig: int,
    pulled: int,
    held: int,
) -> bool {
    let shift = raised(pulled, c * sig);
    if negative {
        v <= c || raised(held, v - c) <= shift
    } else {
        v <= c && shift <= raised(held, c - v)
    }
}

/// The largest of the values `1..=n` that stays below, or 0 where none
/// does.
pub open spec fn highest(
    n: int,
    c: int,
    negative: bool,
    sig: int,
    pulled: int,
    held: int,
) -> int
    decreases n,
{
    if n <= 0 {
        0
    } else if stays_below(n, c, negative, sig, pulled, held) {
        n
    } else {
        highest(n - 1, c, negative, sig, pulled, held)
    }
}

/// A channel multiplied by `1 - s * (d / m)^1.5`, rounded down and clamped
/// to 0..=255: the largest channel value that is not above the product.
/// `bits` is the pattern of the strength, `far` the squared distance of the
/// pixel from the centre and `corner` that of a corner.
pub open spec fn darkened(c: int, bits: u32, far: int, corner: int) -> int {
    highest(
        255,
        c,
        sign_set(bits),
        significand(bits),
        cubed(far) * pow2((4 * scale(bits)) as nat),
        cubed(corner) * pow2(600),
    )
}

/// Each colour channel darkened alike, alpha kept.
pub open spec fn darkened_pixel(p: Rgba, negative: bool, sig: int, pulled: int, held: int) -> Rgba {
    Rgba {
        r: highest(255, p.r as int, negative, sig, pulled, held) as u8,
        g: highest(255, p.g as int, negative, sig, pulled, held) as u8,
        b: highest(255, p.b as int, negative, sig, pulled, held) as u8,
        a: p.a,
    }
}

/// The pixel in column `x` of row `y` of a `width` by `height` image,
/// darkened by the strength that `bits` stand for.
pub open spec fn vignetted_pixel(
    p: Rgba,
    bits: u32,
    width: int,
    height: int,
    x: int,
    y: int,
) -> Rgba {
    darkened_pixel(
        p,
        sign_set(bits),
        significand(bits),
        cubed(distance_squared(width, height, x, y)) * pow2((4 * scale(bits)) as nat),
        cubed(corner_squared(width, height)) * pow2(600),
    )
}

/// The highest value that stays below lies in the range it was sought in.
pub proof fn lemma_highest_in_range(
    n: int,
    c: int,
    negative: bool,
    sig: int,
    pulled: int,
    held: int,
)
    requires
        0 <= n,
    ensures
        0 <= highest(n, c, negative, sig, pulled, held) <= n,
    decreases n,
{
    if n > 0 && !stays_below(n, c, negative, sig, pulled, held) {
        lemma_highest_in_range(n - 1, c, negative, sig, pulled, held);
    }
}

/// A product does not shrink when both of its factors grow.
proof fn lemma_product_ordered(x: int, y: int, a: int, b: int)
    requires
        0 <= x <= y,
        0 <= a <= b,
    ensures
        0 <= x * a <= y * b,
{
    assert(0 <= x * a <= y * b) by (nonlinear_arith)
        requires
            0 <= x <= y,
            0 <= a <= b,
    ;
}

/// Raising does not shrink when the number raised grows.
pub proof fn lemma_raised_ordered(base: int, a: int, b: int)
    requires
        0 <= base,
        0 <= a <= b,
    ensures
        raised(base, a) <= raised(base, b),
{
    lemma_product_ordered(base, base, a, b);
    lemma_product_ordered(base * a, base * b, a, b);
    lemma_product_ordered(base * a * a, base * b * b, a, b);
    lemma_product_ordered(base * a * a * a, base * b * b * b, a, b);
}

/// What stays below at a value stays below at every lower value.
pub proof fn lemma_stays_below_downward(
    low: int,
    high: int,
    c: int,
    negative: bool,
    sig: int,
    pulled: int,
    held: int,
)
    requires
        low <= high,
        0 <= held,
        stays_below(high, c, negative, sig, pulled, held),
    ensures
        stays_below(low, c, negative, sig, pulled, held),
{
    if negative {
        if low > c {
            lemma_raised_ordered(held, low - c, high - c);
        }
    } else {
        lemma_raised_ordered(held, c - high, c - low);
    }
}

/// Where nothing above `found` stays below, the highest value up to `n` is
/// the highest up to `found`.
proof fn lemma_highest_skips(
    n: int,
    found: int,
    c: int,
    negative: bool,
    sig: int,
    pulled: int,
    held: int,
)
    requires
        0 <= found <= n,
        0 <= held,
        found == n || !stays_below(found + 1, c, negative, sig, pulled, held),
    ensures
        highest(n, c, negative, sig, pulled, held) == highest(found, c, negative, sig, pulled, held),
    decreases n,
{
    if n > found {
        if stays_below(n, c, negative, sig, pulled, held) {
            lemma_stays_below_downward(found + 1, n, c, negative, sig, pulled, held);
        }
        lemma_highest_skips(n - 1, found, c, negative, sig, pulled, held);
    }
}

/// A value that stays below, while its successor does not, is the highest.
pub proof fn lemma_highest_found(
    found: int,
    c: int,
    negative: bool,
    sig: int,
    pulled: int,
    held: int,
)
    requires
        0 <= found <= 255,
        0 <= held,
        found == 0 || stays_below(found, c, negative, sig, pulled, held),
        found == 255 || !stays_below(found + 1, c, negative, sig, pulled, held),
    ensures
        highest(255, c, negative, sig, pulled, held) == found,
{
    lemma_highest_skips(255, found, c, negative, sig, pulled, held);
}

/// The square of a number of at most 33 bits has at most 66 bits.
proof fn lemma_square_bounded(a: int)
    requires
        -0x2_0000_0000 <= a <= 0x2_0000_0000,
    ensures
        0 <= a * a <= 0x4_0000_0000_0000_0000,
{
    assert(0 <= a * a <= 0x4_0000_0000_0000_0000) by (nonlinear_arith)
        requires
            -0x2_0000_0000 <= a <= 0x2_0000_0000,
    ;
}

/// The third power of a number, as a wide number.
fn cube(a: u128) -> (out: Vec<u32>)
    requires
        a <= FACTOR_MAX,
    ensures
        value(out@) == cubed(a as int),
{
    let first: Vec<u32> = times(&one(), a);
    let second: Vec<u32> = times(&first, a);
    times(&second, a)
}

/// A wide number times the fourth power of `a`.
fn raise(base: &Vec<u32>, a: u32) -> (out: Vec<u32>)
    ensures
        value(out@) == raised(value(base@) as int, a as int),
{
    let first: Vec<u32> = times(base, a as u128);
    let second: Vec<u32> = times(&first, a as u128);
    let third: Vec<u32> = times(&second, a as u128);
    times(&third, a as u128)
}

/// The wide number `corner^3 * 2^600` of an image.
pub(crate) fn held_of(width: u32, height: u32) -> (held: Vec<u32>)
    ensures
        value(held@) == cubed(corner_squared(width as int, height as int)) * pow2(600),
{
    proof {
        lemma_square_bounded(width as int);
        lemma_square_bounded(height as int);
    }
    let corner: u128 = (width as u128) * (width as u128) + (height as u128) * (height as u128);
    doubled(&cube(corner), 600)
}

/// The wide number `far^3 * 2^(4 k)` of the pixel in column `x` of row `y`.
pub(crate) fn pulled_of(width: u32, height: u32, x: u32, y: u32, k: u32) -> (pulled: Vec<u32>)
    requires
        k <= 255,
    ensures
        value(pulled@) == cubed(
            distance_squared(width as int, height as int, x as int, y as int),
        ) * pow2((4 * k) as nat),
{
    let across: i128 = 2 * (x as i128) - (width as i128);
    let down: i128 = 2 * (y as i128) - (height as i128);
    proof {
        lemma_square_bounded(across as int);
        lemma_square_bounded(down as int);
    }
    let far: i128 = across * across + down * down;
    doubled(&cube(far as u128), 4 * k)
}

/// Darkens one channel of a pixel whose wide numbers are at hand.
pub(crate) fn darken_channel(
    c: u8,
    negative: bool,
    sig: u32,
    pulled: &Vec<u32>,
    held: &Vec<u32>,
) -> (out: u8)
    requires
        sig < 0x100_0000,
    ensures
        out == highest(
            255,
            c as int,
            negative,
            sig as int,
            value(pulled@) as int,
            value(held@) as int,
        ),
{
    assert(c * sig <= 255 * 0xff_ffff) by (nonlinear_arith)
        requires
            0 <= c <= 255,
            0 <= sig <= 0xff_ffff,
    ;
    let shift: Vec<u32> = raise(pulled, c as u32 * sig);
    let mut low: u32 = 0;
    let mut high: u32 = 256;
    while high - low > 1
        invariant
            low < high <= 256,
            value(shift@) == raised(value(pulled@) as int, c * sig),
            low == 0 || stays_below(
                low as int,
                c as int,
                negative,
                sig as int,
                value(pulled@) as int,
                value(held@) as int,
            ),
            high == 256 || !stays_below(
                high as int,
                c as int,
                negative,
                sig as int,
                value(pulled@) as int,
                value(held@) as int,
            ),
        decreases high - low,
    {
        let v: u32 = low + (high - low) / 2;
        let below: bool = if v <= c as u32 {
            if negative {
                true
            } else {
                at_most(&shift, &raise(held, c as u32 - v))
            }
        } else {
            if negative {
                at_most(&raise(held, v - c as u32), &shift)
            } else {
                false
            }
        };
        if below {
            low = v;
        } else {
            high = v;
        }
    }
    proof {
        lemma_highest_found(
            low as int,
            c as int,
            negative,
            sig as int,
            value(pulled@) as int,
            value(held@) as int,
        );
    }
    low as u8
}

/// Darkens the colour channels of a pixel whose wide numbers are at hand.
pub(crate) fn darken_pixel(
    p: Rgba,
    negative: bool,
    sig: u32,
    pulled: &Vec<u32>,
    held: &Vec<u32>,
) -> (out: Rgba)
    requires
        sig < 0x100_0000,
    ensures
        out == darkened_pixel(
            p,
            negative,
            sig as int,
            value(pulled@) as int,
            value(held@) as int,
        ),
{
    proof {
        let far = value(pulled@) as int;
        let corner = value(held@) as int;
        lemma_highest_in_range(255, p.r as int, negative, sig as int, far, corner);
        lemma_highest_in_range(255, p.g as int, negative, sig as int, far, corner);
        lemma_highest_in_range(255, p.b as int, negative, sig as int, far, corner);
    }
    Rgba {
        r: darken_channel(p.r, negative, sig, pulled, held),
        g: darken_channel(p.g, negative, sig, pulled, held),
        b: darken_channel(p.b, negative, sig, pulled, held),
        a: p.a,
    }
}

/// Darkens the pixel in column `x` of row `y` of a `width` by `height`
/// image. There is no result for a strength that is not finite or a
/// position outside the image.
pub fn vignette_pixel(
    p: Rgba,
    strength: Scalar,
    width: u32,
    height: u32,
    x: u32,
    y: u32,
) -> (out: Option<Rgba>)
    ensures
        out is Some <==> is_finite(strength.bits) && x < width && y < height,
        out matches Some(q) ==> q == vignetted_pixel(
            p,
            strength.bits,
            width as int,
            height as int,
            x as int,
            y as int,
        ),
{
    match strength.classify() {
        Class::Nan => None,
        Class::Infinite => None,
        _ => if x < width && y < height {
            let held: Vec<u32> = held_of(width, height);
            let pulled: Vec<u32> = pulled_of(width, height, x, y, strength.scale_of());
            let q: Rgba = darken_pixel(
                p,
                strength.has_sign(),
                strength.significand_of(),
                &pulled,
                &held,
            );
            Some(q)
        } else {
            None
        },
    }
}

} // verus!
