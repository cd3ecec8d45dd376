//! The threshold method.

use crate::mask::ActivationMask;
use crate::raster::{index_of, Picture};
use vstd::prelude::*;

verus! {

/// Ten thousand times the luminance of a colour: the red, green and blue
/// samples weighted by 0.2126, 0.7152 and 0.0722.
pub open spec fn luminance_scaled(r: u8, g: u8, b: u8) -> int {
    2126 * r + 7152 * g + 722 * b
}

/// Whether a colour counts as dark: its luminance is below 128.
pub open spec fn is_dark(r: u8, g: u8, b: u8) -> bool {
    luminance_scaled(r, g, b) < 128 * 10000
}

pub fn dark(r: u8, g: u8, b: u8) -> (d: bool)
    ensures
        d == is_dark(r, g, b),
{
    let scaled: u32 = 2126 * (r as u32) + 7152 * (g as u32) + 722 * (b as u32);
    scaled < 1_280_000
}

/// The threshold method: a cell is active exactly when its pixel is dark.
/// The alpha sample plays no part.
pub fn matrix_mask(picture: &Picture) -> (mask: ActivationMask)
    requires
        picture.wf(),
    ensures
        mask.wf(),
        mask.width == picture.width,
        mask.height == picture.height,
        forall|x: int, y: int|
            mask.in_bounds(x, y) ==> #[trigger] mask.active(x, y) == is_dark(
                picture.channel(x, y, 0),
                picture.channel(x, y, 1),
                picture.channel(x, y, 2),
            ),
{
    let mut mask = ActivationMask::blank(picture.width, picture.height);
    let mut y: u32 = 0;
    while y < picture.height
        invariant
            picture.wf(),
            mask.wf(),
            mask.width == picture.width,
            mask.height == picture.height,
            y <= picture.height,
            forall|cx: int, cy: int|
                mask.in_bounds(cx, cy) && cy < y ==> #[trigger] mask.active(cx, cy) == is_dark(
                    picture.channel(cx, cy, 0),
                    picture.channel(cx, cy, 1),
                    picture.channel(cx, cy, 2),
                ),
        decreases picture.height - y,
    {
        let mut x: u32 = 0;
        while x < picture.width
            invariant
                picture.wf(),
                mask.wf(),
                mask.width == picture.width,
                mask.height == picture.height,
                y < picture.height,
                x <= picture.width,
                forall|cx: int, cy: int|
                    mask.in_bounds(cx, cy) && (cy < y || (cy == y && cx < x))
                        ==> #[trigger] mask.active(cx, cy) == is_dark(
                        picture.channel(cx, cy, 0),
                        picture.channel(cx, cy, 1),
                        picture.channel(cx, cy, 2),
                    ),
            decreases picture.width - x,
        {
            let i = index_of(picture.width, picture.height, x, y);
            assert(4 * i + 3 < picture.rgba.len());
            let d = dark(picture.rgba[4 * i], picture.rgba[4 * i + 1], picture.rgba[4 * i + 2]);
            mask.set(x, y, d);
            x = x + 1;
        }
        y = y + 1;
    }
    mask
}

} // verus!
