//! The continuous-line method.

use crate::mask::ActivationMask;
use crate::raster::GrayGrid;
use vstd::prelude::*;

verus! {

/// Samples below this value count as dark.
pub const DARK_BELOW: u8 = 128;

/// The continuous-line method: the rows are scanned as one serpentine, even
/// rows from left to right and odd rows from right to left, and a cell is
/// active exactly when its sample is dark.
pub fn continuous_mask(gray: &GrayGrid) -> (mask: ActivationMask)
    requires
        gray.wf(),
    ensures
        mask.wf(),
        mask.width == gray.width,
        mask.height == gray.height,
        forall|x: int, y: int|
            mask.in_bounds(x, y) ==> #[trigger] mask.active(x, y) == (gray.at(x, y) < DARK_BELOW),
{
    let mut mask = ActivationMask::blank(gray.width, gray.height);
    let mut y: u32 = 0;
    while y < gray.height
        invariant
            gray.wf(),
            mask.wf(),
            mask.width == gray.width,
            mask.height == gray.height,
            y <= gray.height,
            forall|cx: int, cy: int|
                mask.in_bounds(cx, cy) && cy < y ==> #[trigger] mask.active(cx, cy) == (gray.at(
                    cx,
                    cy,
                ) < DARK_BELOW),
        decreases gray.height - y,
    {
        if y % 2 == 0 {
            let mut x: u32 = 0;
            while x < gray.width
                invariant
                    gray.wf(),
                    mask.wf(),
                    mask.width == gray.width,
                    mask.height == gray.height,
                    y < gray.height,
                    x <= gray.width,
                    forall|cx: int, cy: int|
                        mask.in_bounds(cx, cy) && (cy < y || (cy == y && cx < x))
                            ==> #[trigger] mask.active(cx, cy) == (gray.at(cx, cy) < DARK_BELOW),
                decreases gray.width - x,
            {
                mask.set(x, y, gray.get(x, y) < DARK_BELOW);
                x = x + 1;
            }
        } else {
            let mut x: u32 = gray.width;
            while x > 0
                invariant
                    gray.wf(),
                    mask.wf(),
                    mask.width == gray.width,
                    mask.height == gray.height,
                    y < gray.height,
                    x <= gray.width,
                    forall|cx: int, cy: int|
                        mask.in_bounds(cx, cy) && (cy < y || (cy == y && cx >= x))
                            ==> #[trigger] mask.active(cx, cy) == (gray.at(cx, cy) < DARK_BELOW),
                decreases x,
            {
                x = x - 1;
                mask.set(x, y, gray.get(x, y) < DARK_BELOW);
            }
        }
        y = y + 1;
    }
    mask
}

} // verus!
