//! An image-filter engine, verified with Verus.
//!
//! An encoded image is decoded into a grid of RGBA pixels, one filter is
//! applied to the grid, and the result is encoded as PNG. Each call stands
//! by itself: nothing is kept between calls.
//!
//! Decoding, encoding and two of the filters are the work of the `image`
//! crate, reached through the functions of [`imaging`], whose contracts are
//! believed. Everything else is proved: no arithmetic wraps, no index leaves
//! its buffer, and every filter returns exactly the pixels that its formula
//! in [`filter`] names.

pub mod codec;
pub mod contrast;
pub mod error;
pub mod filter;
pub mod grid;
pub mod imaging;
pub mod laws;
pub mod pipeline;
pub mod pixel;
pub mod scalar;
pub mod signature;
pub mod tone;
pub mod vignette;
pub mod wide;

pub use codec::{decode, encode};
pub use error::FilterError;
pub use filter::{apply, Filter};
pub use grid::PixelGrid;
pub use pipeline::{
    blueify, blur, brighten, contrast, finish_blur, grayscale, invert, pinkify, plan_blur, sepia,
    technicolor, vignette, vintage, BlurPlan, BlurStep,
};
pub use pixel::Rgba;
pub use scalar::Scalar;
