//! Grids of samples: pictures in colour and grids of single samples.

use vstd::prelude::*;

verus! {

/// Most cells that a grid may have: a cell count fits 32-bit arithmetic.
pub const MAX_CELLS: u64 = 0xFFFF_FFFF;

/// Most cells that a grid may have along one side: a column or row number,
/// with the reach of a seven-tap filter added, fits signed 32-bit arithmetic.
pub const MAX_SIDE: u32 = 0x7FFF_FFF9;

/// Position of cell `(x, y)` in a row-major buffer of rows `width` long.
pub open spec fn cell_index(width: int, x: int, y: int) -> int {
    y * width + x
}

/// Whether a grid of these dimensions is within the limits on its sides and
/// on its cell count.
pub open spec fn fits(width: int, height: int) -> bool {
    &&& 0 <= width <= MAX_SIDE
    &&& 0 <= height <= MAX_SIDE
    &&& width * height <= MAX_CELLS
}

/// Whether a grid of these dimensions is within the limits.
pub fn within_limits(width: u32, height: u32) -> (ok: bool)
    ensures
        ok == fits(width as int, height as int),
{
    width <= MAX_SIDE && height <= MAX_SIDE && cell_count(width, height) <= MAX_CELLS
}

/// A cell inside the grid has its position inside the buffer.
pub proof fn lemma_cell_index_bounds(width: int, height: int, x: int, y: int)
    requires
        0 <= x < width,
        0 <= y < height,
    ensures
        0 <= cell_index(width, x, y) < width * height,
{
    assert(y * width + width + (height - 1 - y) * width == height * width) by (nonlinear_arith);
    assert(0 <= y * width) by (nonlinear_arith)
        requires
            0 <= y,
            0 <= width,
    ;
    assert(0 <= (height - 1 - y) * width) by (nonlinear_arith)
        requires
            0 <= height - 1 - y,
            0 <= width,
    ;
    assert(height * width == width * height) by (nonlinear_arith);
}

/// Two cells of one grid share a position only when they are the same cell.
pub proof fn lemma_cell_index_injective(width: int, x1: int, y1: int, x2: int, y2: int)
    requires
        0 <= x1 < width,
        0 <= x2 < width,
        cell_index(width, x1, y1) == cell_index(width, x2, y2),
    ensures
        x1 == x2,
        y1 == y2,
{
    if y1 < y2 {
        assert((y2 - y1) * width >= width) by (nonlinear_arith)
            requires
                y2 - y1 >= 1,
                width >= 0,
        ;
        assert(y2 * width - y1 * width == (y2 - y1) * width) by (nonlinear_arith);
    } else if y2 < y1 {
        assert((y1 - y2) * width >= width) by (nonlinear_arith)
            requires
                y1 - y2 >= 1,
                width >= 0,
        ;
        assert(y1 * width - y2 * width == (y1 - y2) * width) by (nonlinear_arith);
    }
}

/// The buffer position of cell `(x, y)` in a grid of the given size.
pub fn index_of(width: u32, height: u32, x: u32, y: u32) -> (i: usize)
    requires
        fits(width as int, height as int),
        x < width,
        y < height,
    ensures
        i == cell_index(width as int, x as int, y as int),
        i < width * height,
{
    proof {
        lemma_cell_index_bounds(width as int, height as int, x as int, y as int);
    }
    let row: u64 = y as u64 * width as u64;
    (row + x as u64) as usize
}

/// The number of cells of a grid of the given size.
pub fn cell_count(width: u32, height: u32) -> (n: u64)
    ensures
        n == width * height,
{
    assert(width * height <= 0xFFFF_FFFF * 0xFFFF_FFFF) by (nonlinear_arith)
        requires
            0 <= width <= 0xFFFF_FFFF,
            0 <= height <= 0xFFFF_FFFF,
    ;
    width as u64 * height as u64
}

/// A grid of 8-bit samples as a mathematical value: what a `GrayGrid`
/// holds.
pub struct Samples {
    pub width: u32,
    pub height: u32,
    pub data: Seq<u8>,
}

impl Samples {
    /// One sample for each cell, and a size within the limits.
    pub open spec fn wf(self) -> bool {
        &&& fits(self.width as int, self.height as int)
        &&& self.data.len() == self.width * self.height
    }

    /// The sample at column `x` of row `y`.
    pub open spec fn at(self, x: int, y: int) -> u8 {
        self.data[cell_index(self.width as int, x, y)]
    }
}

/// A grid of 8-bit samples in row-major order: luminance, or edge strength.
#[derive(Debug)]
pub struct GrayGrid {
    pub width: u32,
    pub height: u32,
    pub data: Vec<u8>,
}

impl View for GrayGrid {
    type V = Samples;

    open spec fn view(&self) -> Samples {
        Samples { width: self.width, height: self.height, data: self.data@ }
    }
}

impl GrayGrid {
    /// One sample for each cell, and a size within the limits.
    pub open spec fn wf(&self) -> bool {
        self@.wf()
    }

    /// The sample at column `x` of row `y`.
    pub open spec fn at(&self, x: int, y: int) -> u8 {
        self@.at(x, y)
    }

    /// Wraps a buffer as a grid, when it holds exactly one sample per cell
    /// and the cell count is within the limit.
    pub fn new(width: u32, height: u32, data: Vec<u8>) -> (grid: Option<GrayGrid>)
        ensures
            grid is Some <==> fits(width as int, height as int) && data@.len() == width * height,
            grid matches Some(g) ==> g.wf() && g.width == width && g.height == height && g.data@
                == data@,
    {
        if within_limits(width, height) && data.len() as u64 == cell_count(width, height) {
            Some(GrayGrid { width, height, data })
        } else {
            None
        }
    }

    pub fn get(&self, x: u32, y: u32) -> (v: u8)
        requires
            self.wf(),
            x < self.width,
            y < self.height,
        ensures
            v == self.at(x as int, y as int),
    {
        self.data[index_of(self.width, self.height, x, y)]
    }
}

/// The luminance samples that `image::DynamicImage::to_luma8` gives for an
/// RGBA image of the given size and samples. The conversion reads nothing
/// but its input; its arithmetic is that of the build.
pub uninterp spec fn luma_samples(width: u32, height: u32, rgba: Seq<u8>) -> Seq<u8>;

/// Calls `image::DynamicImage::to_luma8` on an RGBA image made of the given
/// samples and hands back the samples of its result. Trusted: the result is
/// `luma_samples` of the input and has one sample for each pixel. Which
/// luminance a colour gets is not stated.
#[verifier::external_body]
fn luma8(width: u32, height: u32, rgba: &Vec<u8>) -> (luma: Vec<u8>)
    requires
        rgba@.len() == 4 * (width * height),
    ensures
        luma@ == luma_samples(width, height, rgba@),
        luma@.len() == width * height,
{
    let buffer = image::RgbaImage::from_raw(width, height, rgba.clone()).unwrap();
    image::DynamicImage::ImageRgba8(buffer).to_luma8().into_raw()
}

/// A decoded image as 8-bit RGBA samples, four to a pixel, in row-major
/// order.
#[derive(Debug)]
pub struct Picture {
    pub width: u32,
    pub height: u32,
    pub rgba: Vec<u8>,
}

impl Picture {
    /// Four samples for each pixel, and no more pixels than the limit.
    pub open spec fn wf(&self) -> bool {
        &&& fits(self.width as int, self.height as int)
        &&& self.rgba@.len() == 4 * (self.width * self.height)
    }

    /// The channel `c` (0 red, 1 green, 2 blue, 3 alpha) of pixel `(x, y)`.
    pub open spec fn channel(&self, x: int, y: int, c: int) -> u8 {
        self.rgba@[4 * cell_index(self.width as int, x, y) + c]
    }

    /// The luminance of the picture as a mathematical value: a grid of the
    /// picture's size that holds the luminance samples of its colours.
    pub open spec fn luminance(&self) -> Samples {
        Samples {
            width: self.width,
            height: self.height,
            data: luma_samples(self.width, self.height, self.rgba@),
        }
    }

    /// The luminance of the picture, one sample for each pixel.
    pub fn to_gray(&self) -> (gray: GrayGrid)
        requires
            self.wf(),
        ensures
            gray.wf(),
            gray@ == self.luminance(),
    {
        let data = luma8(self.width, self.height, &self.rgba);
        GrayGrid { width: self.width, height: self.height, data }
    }

    /// Wraps a buffer as a picture, when it holds exactly four samples per
    /// pixel and the pixel count is within the limit.
    pub fn new(width: u32, height: u32, rgba: Vec<u8>) -> (picture: Option<Picture>)
        ensures
            picture is Some <==> fits(width as int, height as int) && rgba@.len() == 4 * (width
                * height),
            picture matches Some(p) ==> p.wf() && p.width == width && p.height == height
                && p.rgba@ == rgba@,
    {
        if within_limits(width, height) && rgba.len() as u64 == 4 * cell_count(width, height) {
            Some(Picture { width, height, rgba })
        } else {
            None
        }
    }
}

} // verus!
