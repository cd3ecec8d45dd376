//! Edge detection and the contour method.

use crate::mask::ActivationMask;
use crate::raster::{fits, GrayGrid, Samples};
use vstd::prelude::*;

verus! {

/// Lower threshold of the edge detector's hysteresis.
pub const EDGE_LOW: u8 = 50;

/// Upper threshold of the edge detector's hysteresis.
pub const EDGE_HIGH: u8 = 100;

/// A cell is on an edge when its edge strength is above this value.
pub const EDGE_ABOVE: u8 = 128;

/// Whether a grid is an edge map: every sample is 0 (no edge) or 255 (edge).
pub open spec fn is_edge_map(edges: Samples) -> bool {
    &&& edges.wf()
    &&& forall|i: int| 0 <= i < edges.data.len() ==> edges.data[i] == 0 || edges.data[i] == 255
}

/// The samples that `imageproc::edges::canny` gives for a luminance image of
/// the given size and samples under the given thresholds. The detector reads
/// nothing but its input; its arithmetic is that of the build.
pub uninterp spec fn edge_samples(width: u32, height: u32, luma: Seq<u8>, low: u8, high: u8) -> Seq<u8>;

/// The edge map of a luminance grid: what the detector makes of it under
/// the thresholds `EDGE_LOW` and `EDGE_HIGH`. A grid without cells has an
/// edge map without cells; the detector is not asked.
pub open spec fn edge_map(gray: Samples) -> Samples {
    Samples {
        width: gray.width,
        height: gray.height,
        data: if gray.width == 0 || gray.height == 0 {
            Seq::empty()
        } else {
            edge_samples(gray.width, gray.height, gray.data, EDGE_LOW, EDGE_HIGH)
        },
    }
}

/// Whether `mask` marks exactly the cells of `edges` whose strength is above
/// the edge level.
pub open spec fn is_contour_of(mask: ActivationMask, edges: Samples) -> bool {
    &&& mask.wf()
    &&& mask.width == edges.width
    &&& mask.height == edges.height
    &&& forall|x: int, y: int|
        mask.in_bounds(x, y) ==> #[trigger] mask.active(x, y) == (edges.at(x, y) > EDGE_ABOVE)
}

/// Calls `imageproc::edges::canny` on a luminance buffer and hands back the
/// samples of its result. Trusted: the result is `edge_samples` of the input,
/// it has one sample per input sample, and each is 0 or 255. Which cells come
/// out as edges is not stated. The detector needs a grid with at least one
/// row and one column, sides and a cell count within the limits of `fits`,
/// and `0 < low <= high`.
#[verifier::external_body]
fn canny_edges(width: u32, height: u32, luma: &Vec<u8>, low: u8, high: u8) -> (edges: Vec<u8>)
    requires
        width >= 1,
        height >= 1,
        fits(width as int, height as int),
        luma@.len() == width * height,
        0 < low <= high,
    ensures
        edges@ == edge_samples(width, height, luma@, low, high),
        edges@.len() == luma@.len(),
        forall|i: int| 0 <= i < edges@.len() ==> edges@[i] == 0 || edges@[i] == 255,
{
    let gray = image::GrayImage::from_raw(width, height, luma.clone()).unwrap();
    imageproc::edges::canny(&gray, low.into(), high.into()).into_raw()
}

/// The edge map of a luminance grid, by dual-threshold edge detection with
/// the thresholds `EDGE_LOW` and `EDGE_HIGH`. A grid without cells has an
/// edge map without cells.
pub fn detect_edges(gray: &GrayGrid) -> (edges: GrayGrid)
    requires
        gray.wf(),
    ensures
        edges@ == edge_map(gray@),
        is_edge_map(edges@),
{
    if gray.width == 0 || gray.height == 0 {
        assert(gray.width * gray.height == 0) by (nonlinear_arith)
            requires
                gray.width == 0 || gray.height == 0,
        ;
        GrayGrid { width: gray.width, height: gray.height, data: Vec::new() }
    } else {
        let data = canny_edges(gray.width, gray.height, &gray.data, EDGE_LOW, EDGE_HIGH);
        GrayGrid { width: gray.width, height: gray.height, data }
    }
}

/// The mask of an edge map: a cell is active exactly when its edge strength
/// is above the edge level.
pub fn contour_of(edges: &GrayGrid) -> (mask: ActivationMask)
    requires
        edges.wf(),
    ensures
        is_contour_of(mask, edges@),
{
    let mut mask = ActivationMask::blank(edges.width, edges.height);
    let mut y: u32 = 0;
    while y < edges.height
        invariant
            edges.wf(),
            mask.wf(),
            mask.width == edges.width,
            mask.height == edges.height,
            y <= edges.height,
            forall|cx: int, cy: int|
                mask.in_bounds(cx, cy) && cy < y ==> #[trigger] mask.active(cx, cy) == (edges.at(
                    cx,
                    cy,
                ) > EDGE_ABOVE),
        decreases edges.height - y,
    {
        let mut x: u32 = 0;
        while x < edges.width
            invariant
                edges.wf(),
                mask.wf(),
                mask.width == edges.width,
                mask.height == edges.height,
                y < edges.height,
                x <= edges.width,
                forall|cx: int, cy: int|
                    mask.in_bounds(cx, cy) && (cy < y || (cy == y && cx < x))
                        ==> #[trigger] mask.active(cx, cy) == (edges.at(cx, cy) > EDGE_ABOVE),
            decreases edges.width - x,
        {
            mask.set(x, y, edges.get(x, y) > EDGE_ABOVE);
            x = x + 1;
        }
        y = y + 1;
    }
    mask
}

/// The contour method: edge detection, then the mask of the edge map. The
/// mask marks exactly the edge cells of the grid's edge map.
pub fn contour_mask(gray: &GrayGrid) -> (mask: ActivationMask)
    requires
        gray.wf(),
    ensures
        is_contour_of(mask, edge_map(gray@)),
        is_edge_map(edge_map(gray@)),
{
    let edges = detect_edges(gray);
    contour_of(&edges)
}

} // verus!
