//! Pixels and the arithmetic on single channels.
//!
//! Every transform is stated over mathematical integers first and clamped to
//! the eight-bit range last, so no intermediate value can wrap.

use vstd::prelude::*;

verus! {

/// One pixel: red, green, blue and alpha, eight bits each.
#[derive(Clone, Copy, Debug, PartialEq, Eq, Structural)]
pub struct Rgba {
    pub r: u8,
    pub g: u8,
    pub b: u8,
    pub a: u8,
}

/// The nearest value to `v` inside the channel range 0..=255.
pub open spec fn clamped(v: int) -> int {
    if v < 0 {
        0
    } else if v > 255 {
        255
    } else {
        v
    }
}

/// The complement of a channel value within the channel range.
pub open spec fn inverted(c: int) -> int {
    255 - c
}

/// A channel multiplied by `tenths / 10`, rounded down and clamped.
pub open spec fn scaled(c: int, tenths: int) -> int {
    clamped(c * tenths / 10)
}

/// A channel moved by `delta`, clamped.
pub open spec fn brightened(c: int, delta: int) -> int {
    clamped(c + delta)
}

/// A weighted sum of the three colour channels in thousandths, rounded down
/// and clamped.
pub open spec fn mixed(r: int, g: int, b: int, wr: int, wg: int, wb: int) -> int {
    clamped((wr * r + wg * g + wb * b) / 1000)
}

/// The luminance of a colour: the three channels weighted 0.2126, 0.7152 and
/// 0.0722, rounded down.
pub open spec fn luminance(r: int, g: int, b: int) -> int {
    (2126 * r + 7152 * g + 722 * b) / 10000
}

/// Luminance of eight-bit channels is again an eight-bit value.
pub proof fn lemma_luminance_in_range(r: int, g: int, b: int)
    requires
        0 <= r <= 255,
        0 <= g <= 255,
        0 <= b <= 255,
    ensures
        0 <= luminance(r, g, b) <= 255,
{
}

/// A product of two bounded non-negative factors is bounded by the product
/// of the bounds.
pub proof fn lemma_product_bounded(a: int, b: int, a_max: int, b_max: int)
    by (nonlinear_arith)
    requires
        0 <= a <= a_max,
        0 <= b <= b_max,
    ensures
        0 <= a * b <= a_max * b_max,
{
}

/// Brings a value into the channel range.
pub fn clamp_channel(v: i64) -> (out: u8)
    ensures
        out == clamped(v as int),
{
    if v < 0 {
        0
    } else if v > 255 {
        255
    } else {
        v as u8
    }
}

/// Inverts one channel.
pub fn invert_channel(c: u8) -> (out: u8)
    ensures
        out == inverted(c as int),
{
    255 - c
}

/// Multiplies one channel by `tenths / 10`.
pub fn scale_channel(c: u8, tenths: u8) -> (out: u8)
    ensures
        out == scaled(c as int, tenths as int),
{
    proof {
        lemma_product_bounded(c as int, tenths as int, 255, 255);
    }
    let product: u32 = c as u32 * tenths as u32;
    let quotient: u32 = product / 10;
    if quotient > 255 {
        255
    } else {
        quotient as u8
    }
}

/// Mixes the three colour channels with weights in thousandths.
pub fn mix_channels(r: u8, g: u8, b: u8, wr: u16, wg: u16, wb: u16) -> (out: u8)
    ensures
        out == mixed(r as int, g as int, b as int, wr as int, wg as int, wb as int),
{
    proof {
        lemma_product_bounded(wr as int, r as int, 65535, 255);
        lemma_product_bounded(wg as int, g as int, 65535, 255);
        lemma_product_bounded(wb as int, b as int, 65535, 255);
    }
    let sum: u64 = wr as u64 * r as u64 + wg as u64 * g as u64 + wb as u64 * b as u64;
    let quotient: u64 = sum / 1000;
    if quotient > 255 {
        255
    } else {
        quotient as u8
    }
}

} // verus!
