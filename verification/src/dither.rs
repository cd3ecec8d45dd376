//! The error-diffusion method.

use crate::mask::{
    active_count, cell_of, lemma_active_count, lemma_cell_of_index, lemma_index_of_cell,
    lemma_masks_agree, ActivationMask,
};
use crate::raster::{cell_index, fits, index_of, lemma_cell_index_bounds, GrayGrid, Samples};
use crate::scan::DARK_BELOW;
use vstd::prelude::*;

verus! {

/// Share of a pixel's error that goes to its right-hand neighbour, in
/// sixteenths.
pub const WEIGHT_RIGHT: i32 = 7;

/// Share that goes to the neighbour below and to the left, in sixteenths.
pub const WEIGHT_BELOW_LEFT: i32 = 3;

/// Share that goes to the neighbour below, in sixteenths.
pub const WEIGHT_BELOW: i32 = 5;

/// Share that goes to the neighbour below and to the right, in sixteenths.
pub const WEIGHT_BELOW_RIGHT: i32 = 1;

/// The level that a sample is rounded to: black below the threshold, white
/// from it on.
pub open spec fn quantized(v: u8) -> int {
    if v < DARK_BELOW {
        0
    } else {
        255
    }
}

/// A sample after it has taken `weight` sixteenths of the error `err`: the
/// sum is held within 0..=255 and its fraction is dropped.
pub open spec fn diffused(p: u8, err: int, weight: int) -> u8 {
    let sixteenths = 16 * p + err * weight;
    if sixteenths <= 0 {
        0u8
    } else if sixteenths >= 16 * 255 {
        255u8
    } else {
        (sixteenths / 16) as u8
    }
}

/// The buffer after cell `(x, y)` has taken its share of an error. A cell
/// outside the grid takes nothing.
pub open spec fn spread(
    buf: Seq<u8>,
    width: int,
    height: int,
    x: int,
    y: int,
    err: int,
    weight: int,
) -> Seq<u8> {
    if 0 <= x < width && 0 <= y < height {
        let i = cell_index(width, x, y);
        buf.update(i, diffused(buf[i], err, weight))
    } else {
        buf
    }
}

/// The buffer after the error of cell `(x, y)` has been handed to its four
/// neighbours: right, below left, below, below right, in this order.
pub open spec fn dither_step(buf: Seq<u8>, width: int, height: int, x: int, y: int) -> Seq<u8> {
    let old = buf[cell_index(width, x, y)];
    let err = old - quantized(old);
    let b1 = spread(buf, width, height, x + 1, y, err, WEIGHT_RIGHT as int);
    let b2 = spread(b1, width, height, x - 1, y + 1, err, WEIGHT_BELOW_LEFT as int);
    let b3 = spread(b2, width, height, x, y + 1, err, WEIGHT_BELOW as int);
    spread(b3, width, height, x + 1, y + 1, err, WEIGHT_BELOW_RIGHT as int)
}

/// The buffer after the first `k` cells, in row-major order, have been
/// quantized and have handed on their errors.
pub open spec fn dither_buffer(data: Seq<u8>, width: int, height: int, k: nat) -> Seq<u8>
    decreases k,
{
    if k == 0 {
        data
    } else {
        let before = dither_buffer(data, width, height, (k - 1) as nat);
        let cell = cell_of(width, k - 1);
        dither_step(before, width, height, cell.0 as int, cell.1 as int)
    }
}

/// Whether error diffusion leaves cell `(x, y)` black: the sample that the
/// cell holds when its turn comes is below the threshold.
pub open spec fn dithered_dark(gray: Samples, x: int, y: int) -> bool {
    let i = cell_index(gray.width as int, x, y);
    dither_buffer(gray.data, gray.width as int, gray.height as int, i as nat)[i] < DARK_BELOW
}

/// A share of no error changes nothing.
proof fn lemma_spread_nothing(
    buf: Seq<u8>,
    width: int,
    height: int,
    x: int,
    y: int,
    weight: int,
)
    requires
        buf.len() == width * height,
    ensures
        spread(buf, width, height, x, y, 0, weight) == buf,
{
    if 0 <= x < width && 0 <= y < height {
        lemma_cell_index_bounds(width, height, x, y);
        let i = cell_index(width, x, y);
        assert(0 * weight == 0) by (nonlinear_arith);
        assert(diffused(buf[i], 0, weight) == buf[i]);
        assert(buf.update(i, buf[i]) =~= buf);
    }
}

/// An image of pure black and pure white has no rounding error to hand on:
/// error diffusion leaves its samples as they are.
pub proof fn lemma_dither_buffer_of_black_and_white(gray: Samples, k: nat)
    requires
        gray.wf(),
        k <= gray.data.len(),
        forall|i: int| 0 <= i < gray.data.len() ==> gray.data[i] == 0 || gray.data[i] == 255,
    ensures
        dither_buffer(gray.data, gray.width as int, gray.height as int, k) == gray.data,
    decreases k,
{
    if k > 0 {
        let width = gray.width as int;
        let height = gray.height as int;
        let data = gray.data;
        lemma_dither_buffer_of_black_and_white(gray, (k - 1) as nat);
        lemma_index_of_cell(width, height, k - 1);
        let cell = cell_of(width, k - 1);
        let x = cell.0 as int;
        let y = cell.1 as int;
        assert(cell_index(width, x, y) == k - 1);
        let old = data[k - 1];
        assert(old - quantized(old) == 0);
        lemma_spread_nothing(data, width, height, x + 1, y, WEIGHT_RIGHT as int);
        lemma_spread_nothing(data, width, height, x - 1, y + 1, WEIGHT_BELOW_LEFT as int);
        lemma_spread_nothing(data, width, height, x, y + 1, WEIGHT_BELOW as int);
        lemma_spread_nothing(data, width, height, x + 1, y + 1, WEIGHT_BELOW_RIGHT as int);
    }
}

/// Error diffusion reproduces an image of pure black and pure white: a cell
/// comes out black exactly when it is black.
pub proof fn lemma_dithering_keeps_black_and_white(gray: Samples, x: int, y: int)
    requires
        gray.wf(),
        0 <= x < gray.width,
        0 <= y < gray.height,
        forall|i: int| 0 <= i < gray.data.len() ==> gray.data[i] == 0 || gray.data[i] == 255,
    ensures
        dithered_dark(gray, x, y) == (gray.at(x, y) == 0),
{
    lemma_cell_index_bounds(gray.width as int, gray.height as int, x, y);
    lemma_dither_buffer_of_black_and_white(
        gray,
        cell_index(gray.width as int, x, y) as nat,
    );
}

/// Whether every sample of a grid is `level`.
pub open spec fn is_flat(gray: Samples, level: u8) -> bool {
    forall|i: int| 0 <= i < gray.data.len() ==> gray.data[i] == level
}

/// Whether `mask` is the error diffusion of `gray`.
pub open spec fn is_dithering_of(mask: ActivationMask, gray: Samples) -> bool {
    &&& mask.wf()
    &&& mask.width == gray.width
    &&& mask.height == gray.height
    &&& forall|x: int, y: int|
        mask.in_bounds(x, y) ==> #[trigger] mask.active(x, y) == dithered_dark(gray, x, y)
}

/// Density at the ends of the scale: of two flat grids of one size, the
/// darker one has at least as many active cells as the lighter one whenever
/// the darker is pure black, the lighter is pure white, or both are alike.
/// A pure black grid has every cell active and a pure white grid has none.
/// Between the ends the count does not fall with every step of the level:
/// rounding can add a cell where the level rises by one.
pub proof fn lemma_flat_density_at_the_ends(
    darker: ActivationMask,
    lighter: ActivationMask,
    dark: Samples,
    light: Samples,
    dark_level: u8,
    light_level: u8,
)
    requires
        dark.wf(),
        light.wf(),
        dark.width == light.width,
        dark.height == light.height,
        is_flat(dark, dark_level),
        is_flat(light, light_level),
        dark_level <= light_level,
        dark_level == 0 || light_level == 255 || dark_level == light_level,
        is_dithering_of(darker, dark),
        is_dithering_of(lighter, light),
    ensures
        active_count(darker.cells@) >= active_count(lighter.cells@),
        dark_level == 0 ==> forall|i: int| 0 <= i < darker.cells@.len() ==> darker.cells@[i],
        light_level == 255 ==> forall|i: int| 0 <= i < lighter.cells@.len() ==> !lighter.cells@[i],
{
    let width = dark.width as int;
    let height = dark.height as int;
    lemma_active_count(darker.cells@);
    lemma_active_count(lighter.cells@);
    if dark_level == 0 {
        assert forall|i: int| 0 <= i < darker.cells@.len() implies darker.cells@[i] by {
            lemma_index_of_cell(width, height, i);
            lemma_dithering_keeps_black_and_white(dark, i % width, i / width);
            assert(darker.in_bounds(i % width, i / width));
            assert(darker.active(i % width, i / width) == darker.cells@[i]);
        }
    }
    if light_level == 255 {
        assert forall|i: int| 0 <= i < lighter.cells@.len() implies !lighter.cells@[i] by {
            lemma_index_of_cell(width, height, i);
            lemma_dithering_keeps_black_and_white(light, i % width, i / width);
            assert(lighter.in_bounds(i % width, i / width));
            assert(lighter.active(i % width, i / width) == lighter.cells@[i]);
        }
    }
    if dark_level != 0 && light_level != 255 {
        assert(dark.data =~= light.data);
        assert forall|x: int, y: int| darker.in_bounds(x, y) implies #[trigger] darker.active(
            x,
            y,
        ) == lighter.active(x, y) by {
            assert(lighter.in_bounds(x, y));
        }
        lemma_masks_agree(darker, lighter);
    }
}

pub fn diffuse(p: u8, err: i32, weight: i32) -> (v: u8)
    requires
        -255 <= err <= 255,
        0 <= weight <= 16,
    ensures
        v == diffused(p, err as int, weight as int),
{
    assert(-255 * 16 <= err * weight <= 255 * 16) by (nonlinear_arith)
        requires
            -255 <= err <= 255,
            0 <= weight <= 16,
    ;
    let sixteenths: i32 = 16 * (p as i32) + err * weight;
    if sixteenths <= 0 {
        0
    } else if sixteenths >= 16 * 255 {
        255
    } else {
        (sixteenths / 16) as u8
    }
}

fn spread_into(buf: &mut Vec<u8>, width: u32, height: u32, x: i64, y: i64, err: i32, weight: i32)
    requires
        fits(width as int, height as int),
        old(buf)@.len() == width * height,
        -255 <= err <= 255,
        0 <= weight <= 16,
    ensures
        final(buf)@.len() == old(buf)@.len(),
        final(buf)@ == spread(
            old(buf)@,
            width as int,
            height as int,
            x as int,
            y as int,
            err as int,
            weight as int,
        ),
{
    if 0 <= x && x < width as i64 && 0 <= y && y < height as i64 {
        let i = index_of(width, height, x as u32, y as u32);
        let v = diffuse(buf[i], err, weight);
        buf.set(i, v);
    }
}

/// The error-diffusion method: the cells are visited in row-major order;
/// each is rounded to black or white, is active when it comes out black, and
/// hands its rounding error to the neighbours that are still to come.
pub fn dithering_mask(gray: &GrayGrid) -> (mask: ActivationMask)
    requires
        gray.wf(),
    ensures
        is_dithering_of(mask, gray@),
{
    let width = gray.width;
    let height = gray.height;
    let mut mask = ActivationMask::blank(width, height);
    let mut buf = gray.data.clone();
    let mut y: u32 = 0;
    assert(cell_index(width as int, 0, 0) == 0) by (nonlinear_arith);
    while y < height
        invariant
            gray.wf(),
            width == gray.width,
            height == gray.height,
            mask.wf(),
            mask.width == width,
            mask.height == height,
            y <= height,
            buf@.len() == width * height,
            buf@ == dither_buffer(
                gray.data@,
                width as int,
                height as int,
                cell_index(width as int, 0, y as int) as nat,
            ),
            cell_index(width as int, 0, y as int) >= 0,
            forall|cx: int, cy: int|
                mask.in_bounds(cx, cy) && cy < y ==> #[trigger] mask.active(cx, cy)
                    == dithered_dark(gray@, cx, cy),
        decreases height - y,
    {
        let mut x: u32 = 0;
        while x < width
            invariant
                gray.wf(),
                width == gray.width,
                height == gray.height,
                mask.wf(),
                mask.width == width,
                mask.height == height,
                y < height,
                x <= width,
                buf@.len() == width * height,
                cell_index(width as int, x as int, y as int) >= 0,
                buf@ == dither_buffer(
                    gray.data@,
                    width as int,
                    height as int,
                    cell_index(width as int, x as int, y as int) as nat,
                ),
                forall|cx: int, cy: int|
                    mask.in_bounds(cx, cy) && (cy < y || (cy == y && cx < x))
                        ==> #[trigger] mask.active(cx, cy) == dithered_dark(gray@, cx, cy),
            decreases width - x,
        {
            proof {
                lemma_cell_index_bounds(width as int, height as int, x as int, y as int);
                lemma_cell_of_index(width as int, x as int, y as int);
            }
            let i = index_of(width, height, x, y);
            let old = buf[i];
            let black = old < DARK_BELOW;
            mask.set(x, y, black);
            let err: i32 = if black {
                old as i32
            } else {
                old as i32 - 255
            };
            let ghost before = buf@;
            spread_into(&mut buf, width, height, x as i64 + 1, y as i64, err, WEIGHT_RIGHT);
            spread_into(
                &mut buf,
                width,
                height,
                x as i64 - 1,
                y as i64 + 1,
                err,
                WEIGHT_BELOW_LEFT,
            );
            spread_into(&mut buf, width, height, x as i64, y as i64 + 1, err, WEIGHT_BELOW);
            spread_into(
                &mut buf,
                width,
                height,
                x as i64 + 1,
                y as i64 + 1,
                err,
                WEIGHT_BELOW_RIGHT,
            );
            assert(buf@ == dither_step(before, width as int, height as int, x as int, y as int));
            assert(cell_index(width as int, x + 1, y as int) == i + 1);
            x = x + 1;
        }
        assert(cell_index(width as int, width as int, y as int) == cell_index(
            width as int,
            0,
            y + 1,
        )) by (nonlinear_arith);
        y = y + 1;
    }
    mask
}

} // verus!
