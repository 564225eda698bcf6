//! The pixel grid: a width, a height and the pixels row by row.

use vstd::prelude::*;
use crate::pixel::Rgba;

verus! {

/// What a grid is: its dimensions and its pixels in row-major order.
pub struct GridView {
    pub width: nat,
    pub height: nat,
    pub pixels: Seq<Rgba>,
}

impl GridView {
    /// A grid holds exactly one pixel for each position.
    pub open spec fn wf(self) -> bool {
        self.pixels.len() == self.width * self.height
    }

    /// The pixel in column `x` of row `y`.
    pub open spec fn at(self, x: int, y: int) -> Rgba {
        self.pixels[y * self.width + x]
    }
}

/// The pixel that starts at byte `4 * i` of a channel sequence.
pub open spec fn pixel_of(data: Seq<u8>, i: int) -> Rgba {
    Rgba { r: data[4 * i], g: data[4 * i + 1], b: data[4 * i + 2], a: data[4 * i + 3] }
}

/// The pixels that a channel sequence holds, four channels to a pixel.
pub open spec fn pixels_of(data: Seq<u8>) -> Seq<Rgba> {
    Seq::new(data.len() / 4, |i: int| pixel_of(data, i))
}

/// Channel `k` of a pixel, counting red, green, blue, alpha from 0.
pub open spec fn channel_of(p: Rgba, k: int) -> u8 {
    if k == 0 {
        p.r
    } else if k == 1 {
        p.g
    } else if k == 2 {
        p.b
    } else {
        p.a
    }
}

/// The channels of a pixel sequence, one after the other.
pub open spec fn bytes_of(pixels: Seq<Rgba>) -> Seq<u8> {
    Seq::new(4 * pixels.len(), |j: int| channel_of(pixels[j / 4], j % 4))
}

/// Splitting a pixel sequence into channels and reading the pixels back
/// gives the same pixels.
pub proof fn lemma_pixels_of_bytes(pixels: Seq<Rgba>)
    ensures
        pixels_of(bytes_of(pixels)) == pixels,
{
    assert(pixels_of(bytes_of(pixels)) =~= pixels);
}

/// Reading pixels from whole groups of four channels and splitting them
/// again gives the same channels.
pub proof fn lemma_bytes_of_pixels(data: Seq<u8>)
    requires
        data.len() % 4 == 0,
    ensures
        bytes_of(pixels_of(data)) == data,
{
    assert(bytes_of(pixels_of(data)) =~= data);
}

/// An image in memory: `width * height` pixels of four eight-bit channels,
/// stored row by row in one buffer of `4 * width * height` bytes.
pub struct PixelGrid {
    width: u32,
    height: u32,
    data: Vec<u8>,
}

impl View for PixelGrid {
    type V = GridView;

    closed spec fn view(&self) -> GridView {
        GridView {
            width: self.width as nat,
            height: self.height as nat,
            pixels: pixels_of(self.data@),
        }
    }
}

impl PixelGrid {
    #[verifier::type_invariant]
    spec fn buffer_fits(self) -> bool {
        self.data@.len() == 4 * (self.width * self.height)
    }

    /// Makes a grid from its dimensions and its channel bytes. There is no
    /// grid unless the buffer holds exactly four bytes for each pixel.
    pub fn new(width: u32, height: u32, data: Vec<u8>) -> (grid: Option<PixelGrid>)
        ensures
            grid is Some <==> data@.len() == 4 * (width * height),
            grid matches Some(g) ==> g@ == (GridView {
                width: width as nat,
                height: height as nat,
                pixels: pixels_of(data@),
            }) && g@.wf(),
    {
        assert(width * height <= 0xffff_ffff * 0xffff_ffff) by (nonlinear_arith)
            requires
                0 <= width <= 0xffff_ffff,
                0 <= height <= 0xffff_ffff,
        ;
        let needed: u128 = 4 * ((width as u128) * (height as u128));
        if data.len() as u128 == needed {
            Some(PixelGrid { width, height, data })
        } else {
            None
        }
    }

    /// Makes a grid from its dimensions and a buffer known to fit them.
    pub(crate) fn assemble(width: u32, height: u32, data: Vec<u8>) -> (grid: PixelGrid)
        requires
            data@.len() == 4 * (width * height),
        ensures
            grid@ == (GridView {
                width: width as nat,
                height: height as nat,
                pixels: pixels_of(data@),
            }),
            grid@.wf(),
    {
        PixelGrid { width, height, data }
    }

    /// Makes a grid from its dimensions and its pixels in row-major order.
    pub fn from_pixels(width: u32, height: u32, pixels: &Vec<Rgba>) -> (grid: Option<PixelGrid>)
        ensures
            grid is Some <==> pixels@.len() == width * height,
            grid matches Some(g) ==> g@ == (GridView {
                width: width as nat,
                height: height as nat,
                pixels: pixels@,
            }),
    {
        assert(width * height <= 0xffff_ffff * 0xffff_ffff) by (nonlinear_arith)
            requires
                0 <= width <= 0xffff_ffff,
                0 <= height <= 0xffff_ffff,
        ;
        let count: u64 = (width as u64) * (height as u64);
        if pixels.len() as u64 != count {
            return None;
        }
        let mut data: Vec<u8> = Vec::new();
        let mut i: usize = 0;
        while i < pixels.len()
            invariant
                i <= pixels.len(),
                data@ == bytes_of(pixels@.take(i as int)),
            decreases pixels.len() - i,
        {
            let p: Rgba = pixels[i];
            data.push(p.r);
            data.push(p.g);
            data.push(p.b);
            data.push(p.a);
            i += 1;
            assert(data@ =~= bytes_of(pixels@.take(i as int)));
        }
        proof {
            assert(pixels@.take(i as int) =~= pixels@);
            lemma_pixels_of_bytes(pixels@);
        }
        Some(PixelGrid { width, height, data })
    }

    /// The number of columns.
    pub fn width(&self) -> (w: u32)
        ensures
            w == self@.width,
    {
        self.width
    }

    /// The number of rows.
    pub fn height(&self) -> (h: u32)
        ensures
            h == self@.height,
    {
        self.height
    }

    /// The number of pixels.
    pub fn len(&self) -> (n: usize)
        ensures
            n == self@.pixels.len(),
            self@.wf(),
    {
        proof {
            use_type_invariant(self);
        }
        self.data.len() / 4
    }

    /// Whether the grid has no pixels: its width or its height is zero.
    pub fn is_empty(&self) -> (empty: bool)
        ensures
            empty == (self@.width == 0 || self@.height == 0),
    {
        self.width == 0 || self.height == 0
    }

    /// The pixel with index `i` in row-major order, if there is one.
    pub fn pixel(&self, i: usize) -> (p: Option<Rgba>)
        ensures
            p is Some <==> i < self@.pixels.len(),
            p matches Some(v) ==> v == self@.pixels[i as int],
    {
        if i < self.data.len() / 4 {
            Some(
                Rgba {
                    r: self.data[4 * i],
                    g: self.data[4 * i + 1],
                    b: self.data[4 * i + 2],
                    a: self.data[4 * i + 3],
                },
            )
        } else {
            None
        }
    }

    /// The pixel in column `x` of row `y`, if the position lies in the grid.
    pub fn get(&self, x: u32, y: u32) -> (p: Option<Rgba>)
        ensures
            p is Some <==> x < self@.width && y < self@.height,
            p matches Some(v) ==> v == self@.at(x as int, y as int),
    {
        if x >= self.width || y >= self.height {
            return None;
        }
        proof {
            use_type_invariant(self);
            assert(y * self.width + x < self.width * self.height) by (nonlinear_arith)
                requires
                    0 <= x < self.width,
                    0 <= y < self.height,
            ;
            assert(y * self.width <= 0xffff_ffff * 0xffff_ffff) by (nonlinear_arith)
                requires
                    0 <= self.width <= 0xffff_ffff,
                    0 <= y <= 0xffff_ffff,
            ;
        }
        let index: u64 = (y as u64) * (self.width as u64) + (x as u64);
        let bytes: usize = self.data.len();
        assert(index < bytes);
        self.pixel(index as usize)
    }

    /// The channel bytes of the grid, pixel after pixel.
    pub fn to_bytes(&self) -> (bytes: Vec<u8>)
        ensures
            bytes@ == bytes_of(self@.pixels),
            bytes@.len() == 4 * (self@.width * self@.height),
    {
        proof {
            use_type_invariant(self);
            lemma_bytes_of_pixels(self.data@);
        }
        self.data.clone()
    }

    /// The channel bytes of the grid, borrowed.
    pub fn as_bytes(&self) -> (bytes: &Vec<u8>)
        ensures
            bytes@ == bytes_of(self@.pixels),
            bytes@.len() == 4 * (self@.width * self@.height),
            self@.wf(),
    {
        proof {
            use_type_invariant(self);
            lemma_bytes_of_pixels(self.data@);
        }
        &self.data
    }

    /// A copy of the grid.
    pub fn duplicate(&self) -> (copy: PixelGrid)
        ensures
            copy@ == self@,
    {
        proof {
            use_type_invariant(self);
        }
        PixelGrid { width: self.width, height: self.height, data: self.data.clone() }
    }
}

} // verus!
