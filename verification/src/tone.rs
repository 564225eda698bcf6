//! The transforms that change each pixel by itself.

use vstd::prelude::*;
use crate::contrast::{contrasted_pixel, VINTAGE_CONTRAST};
use crate::pixel::{
    brightened,
    invert_channel,
    inverted,
    luminance,
    mix_channels,
    mixed,
    scale_channel,
    scaled,
    Rgba,
};

verus! {

/// The brightness change of the vintage look.
pub const VINTAGE_BRIGHTNESS: i32 = -10;

/// Red, green and blue become their complements.
pub open spec fn inverted_pixel(p: Rgba) -> Rgba {
    Rgba {
        r: inverted(p.r as int) as u8,
        g: inverted(p.g as int) as u8,
        b: inverted(p.b as int) as u8,
        a: p.a,
    }
}

/// Red times 1.2, green times 0.8, blue times 1.1.
pub open spec fn pink_pixel(p: Rgba) -> Rgba {
    Rgba {
        r: scaled(p.r as int, 12) as u8,
        g: scaled(p.g as int, 8) as u8,
        b: scaled(p.b as int, 11) as u8,
        a: p.a,
    }
}

/// Red times 0.8, green times 0.9, blue times 1.2.
pub open spec fn blue_pixel(p: Rgba) -> Rgba {
    Rgba {
        r: scaled(p.r as int, 8) as u8,
        g: scaled(p.g as int, 9) as u8,
        b: scaled(p.b as int, 12) as u8,
        a: p.a,
    }
}

/// Red times 1.1, blue times 0.9.
pub open spec fn warm_pixel(p: Rgba) -> Rgba {
    Rgba {
        r: scaled(p.r as int, 11) as u8,
        g: p.g,
        b: scaled(p.b as int, 9) as u8,
        a: p.a,
    }
}

/// Each colour channel becomes a fixed mixture of the three.
pub open spec fn sepia_pixel(p: Rgba) -> Rgba {
    Rgba {
        r: mixed(p.r as int, p.g as int, p.b as int, 393, 769, 189) as u8,
        g: mixed(p.r as int, p.g as int, p.b as int, 349, 686, 168) as u8,
        b: mixed(p.r as int, p.g as int, p.b as int, 272, 534, 131) as u8,
        a: p.a,
    }
}

/// The colour channels change places: green to red, blue to green, red to
/// blue.
pub open spec fn rotated_pixel(p: Rgba) -> Rgba {
    Rgba { r: p.g, g: p.b, b: p.r, a: p.a }
}

/// All three colour channels become the luminance.
pub open spec fn gray_pixel(p: Rgba) -> Rgba {
    let l = luminance(p.r as int, p.g as int, p.b as int) as u8;
    Rgba { r: l, g: l, b: l, a: p.a }
}

/// Each colour channel moves by `delta`.
pub open spec fn brightened_pixel(p: Rgba, delta: int) -> Rgba {
    Rgba {
        r: brightened(p.r as int, delta) as u8,
        g: brightened(p.g as int, delta) as u8,
        b: brightened(p.b as int, delta) as u8,
        a: p.a,
    }
}

/// The vintage look: less contrast, then less light, then a warmer tone.
pub open spec fn vintage_pixel(p: Rgba) -> Rgba {
    warm_pixel(
        brightened_pixel(
            contrasted_pixel(p, VINTAGE_CONTRAST),
            VINTAGE_BRIGHTNESS as int,
        ),
    )
}

/// Inverts the colour of a pixel.
pub fn invert_pixel(p: Rgba) -> (out: Rgba)
    ensures
        out == inverted_pixel(p),
{
    Rgba { r: invert_channel(p.r), g: invert_channel(p.g), b: invert_channel(p.b), a: p.a }
}

/// Tints a pixel pink.
pub fn pinkify_pixel(p: Rgba) -> (out: Rgba)
    ensures
        out == pink_pixel(p),
{
    Rgba { r: scale_channel(p.r, 12), g: scale_channel(p.g, 8), b: scale_channel(p.b, 11), a: p.a }
}

/// Tints a pixel blue.
pub fn blueify_pixel(p: Rgba) -> (out: Rgba)
    ensures
        out == blue_pixel(p),
{
    Rgba { r: scale_channel(p.r, 8), g: scale_channel(p.g, 9), b: scale_channel(p.b, 12), a: p.a }
}

/// Gives a pixel a warmer tone.
pub fn warm_up_pixel(p: Rgba) -> (out: Rgba)
    ensures
        out == warm_pixel(p),
{
    Rgba { r: scale_channel(p.r, 11), g: p.g, b: scale_channel(p.b, 9), a: p.a }
}

/// Turns a pixel to sepia.
pub fn sepia_tone_pixel(p: Rgba) -> (out: Rgba)
    ensures
        out == sepia_pixel(p),
{
    Rgba {
        r: mix_channels(p.r, p.g, p.b, 393, 769, 189),
        g: mix_channels(p.r, p.g, p.b, 349, 686, 168),
        b: mix_channels(p.r, p.g, p.b, 272, 534, 131),
        a: p.a,
    }
}

/// Moves the colour channels of a pixel round.
pub fn rotate_pixel(p: Rgba) -> (out: Rgba)
    ensures
        out == rotated_pixel(p),
{
    Rgba { r: p.g, g: p.b, b: p.r, a: p.a }
}

} // verus!
