//! The stippling method.

use crate::mask::{lemma_masks_agree, ActivationMask};
use crate::raster::{lemma_cell_index_bounds, GrayGrid, Samples};
use vstd::prelude::*;

verus! {

/// Distance between two lattice points along either axis.
pub const LATTICE_STEP: u32 = 3;

/// Factor of the column in the hash of a lattice point.
pub const HASH_X: u64 = 73856093;

/// Factor of the row in the hash of a lattice point.
pub const HASH_Y: u64 = 19349663;

/// The hash of a cell: its column and its row, each times its factor,
/// combined by exclusive or.
pub open spec fn position_hash(x: u32, y: u32) -> u64 {
    ((x * HASH_X) as u64) ^ ((y * HASH_Y) as u64)
}

/// How many lattice points a span of `len` cells holds: every third cell,
/// the first included.
pub open spec fn lattice_span(len: int) -> int {
    (len + 2) / 3
}

/// Position of the lattice point `(x, y)` in a row-major table of lattice
/// points.
pub open spec fn lattice_index(width: int, x: int, y: int) -> int {
    (y / 3) * lattice_span(width) + x / 3
}

/// The dot level of a table position: the number of sample values, counted
/// from black, that get a dot there. White is never among them, so a level
/// is 255 at most. A position that the table lacks has level 0, which places
/// no dot.
pub open spec fn level_at(levels: Seq<u8>, i: int) -> int {
    if 0 <= i < levels.len() {
        levels[i] as int
    } else {
        0
    }
}

/// Whether cell `(x, y)` gets a dot: it is a lattice point, and its sample
/// is below the dot level of that point.
pub open spec fn stippled(gray: Samples, levels: Seq<u8>, x: int, y: int) -> bool {
    &&& x % 3 == 0
    &&& y % 3 == 0
    &&& gray.at(x, y) < level_at(levels, lattice_index(gray.width as int, x, y))
}

/// A white cell gets no dot, whatever the table holds.
pub proof fn lemma_white_gets_no_dot(gray: Samples, levels: Seq<u8>, x: int, y: int)
    requires
        gray.at(x, y) == 255,
    ensures
        !stippled(gray, levels, x, y),
{
}

/// Stippling has no chance in it: two masks that both are the stippling of
/// one grid under one table of dot levels hold the same flags.
pub proof fn lemma_stippling_repeatable(
    first: ActivationMask,
    second: ActivationMask,
    gray: Samples,
    levels: Seq<u8>,
)
    requires
        gray.wf(),
        first.wf(),
        second.wf(),
        first.width == gray.width && first.height == gray.height,
        second.width == gray.width && second.height == gray.height,
        forall|x: int, y: int|
            first.in_bounds(x, y) ==> #[trigger] first.active(x, y) == stippled(gray, levels, x, y),
        forall|x: int, y: int|
            second.in_bounds(x, y) ==> #[trigger] second.active(x, y) == stippled(
                gray,
                levels,
                x,
                y,
            ),
    ensures
        first.cells@ == second.cells@,
{
    assert forall|x: int, y: int| first.in_bounds(x, y) implies #[trigger] first.active(x, y)
        == second.active(x, y) by {
        assert(second.in_bounds(x, y));
    }
    lemma_masks_agree(first, second);
}

pub fn hash_position(x: u32, y: u32) -> (h: u64)
    ensures
        h == position_hash(x, y),
{
    assert(x * HASH_X <= 0xFFFF_FFFF * 73856093) by (nonlinear_arith)
        requires
            0 <= x <= 0xFFFF_FFFF,
            HASH_X == 73856093,
    ;
    assert(y * HASH_Y <= 0xFFFF_FFFF * 19349663) by (nonlinear_arith)
        requires
            0 <= y <= 0xFFFF_FFFF,
            HASH_Y == 19349663,
    ;
    (x as u64 * HASH_X) ^ (y as u64 * HASH_Y)
}

/// The hashes of the lattice points of a grid, row by row.
pub fn lattice_hashes(width: u32, height: u32) -> (hashes: Vec<u64>)
    ensures
        hashes@.len() == lattice_span(width as int) * lattice_span(height as int),
        forall|x: int, y: int|
            0 <= x < width && 0 <= y < height && x % 3 == 0 && y % 3 == 0 ==> {
                &&& 0 <= lattice_index(width as int, x, y) < hashes@.len()
                &&& hashes@[#[trigger] lattice_index(width as int, x, y)] == position_hash(
                    x as u32,
                    y as u32,
                )
            },
{
    let cols: u64 = (width as u64 + 2) / 3;
    let rows: u64 = (height as u64 + 2) / 3;
    let mut hashes: Vec<u64> = Vec::new();
    let mut j: u64 = 0;
    while j < rows
        invariant
            cols == lattice_span(width as int),
            rows == lattice_span(height as int),
            j <= rows,
            hashes@.len() == j * cols,
            forall|a: int, b: int|
                0 <= a < cols && 0 <= b < j ==> hashes@[#[trigger] (b * cols + a)]
                    == position_hash((3 * a) as u32, (3 * b) as u32),
        decreases rows - j,
    {
        let mut i: u64 = 0;
        while i < cols
            invariant
                cols == lattice_span(width as int),
                rows == lattice_span(height as int),
                j < rows,
                i <= cols,
                hashes@.len() == j * cols + i,
                forall|a: int, b: int|
                    0 <= a < cols && (0 <= b < j || (b == j && a < i)) ==> hashes@[#[trigger] (b
                        * cols + a)] == position_hash((3 * a) as u32, (3 * b) as u32),
            decreases cols - i,
        {
            let ghost before = hashes@;
            hashes.push(hash_position((3 * i) as u32, (3 * j) as u32));
            proof {
                assert forall|a: int, b: int|
                    0 <= a < cols && (0 <= b < j || (b == j && a < i + 1)) implies hashes@[#[trigger] (
                b * cols + a)] == position_hash((3 * a) as u32, (3 * b) as u32) by {
                    if b < j {
                        assert(b * cols + a < j * cols) by (nonlinear_arith)
                            requires
                                0 <= a < cols,
                                0 <= b < j,
                        ;
                        assert(hashes@[b * cols + a] == before[b * cols + a]);
                    } else if a < i {
                        assert(hashes@[b * cols + a] == before[b * cols + a]);
                    }
                }
            }
            i = i + 1;
        }
        assert((j + 1) * cols == j * cols + cols) by (nonlinear_arith);
        j = j + 1;
    }
    proof {
        assert forall|x: int, y: int|
            0 <= x < width && 0 <= y < height && x % 3 == 0 && y % 3 == 0 implies {
            &&& 0 <= lattice_index(width as int, x, y) < hashes@.len()
            &&& hashes@[#[trigger] lattice_index(width as int, x, y)] == position_hash(
                x as u32,
                y as u32,
            )
        } by {
            let a = x / 3;
            let b = y / 3;
            assert(0 <= a < cols && 0 <= b < rows);
            assert(b * cols + a < rows * cols) by (nonlinear_arith)
                requires
                    0 <= a < cols,
                    0 <= b < rows,
            ;
            assert(0 <= b * cols) by (nonlinear_arith)
                requires
                    0 <= b,
                    0 <= cols,
            ;
            assert(lattice_index(width as int, x, y) == b * cols + a);
            assert(hashes@[b * cols + a] == position_hash((3 * a) as u32, (3 * b) as u32));
        }
        assert(rows * cols == lattice_span(width as int) * lattice_span(height as int))
            by (nonlinear_arith)
            requires
                cols == lattice_span(width as int),
                rows == lattice_span(height as int),
        ;
    }
    hashes
}

/// The stippling method, given a dot level for each lattice point: every
/// third cell along both axes is a lattice point, and it is active exactly
/// when its sample is below its dot level. A level is the number of sample
/// values, counted from black, that get a dot at that point; a white cell
/// gets none under any level.
pub fn stippling_mask(gray: &GrayGrid, levels: &Vec<u8>) -> (mask: ActivationMask)
    requires
        gray.wf(),
    ensures
        mask.wf(),
        mask.width == gray.width,
        mask.height == gray.height,
        forall|x: int, y: int|
            mask.in_bounds(x, y) ==> #[trigger] mask.active(x, y) == stippled(
                gray@,
                levels@,
                x,
                y,
            ),
{
    let width = gray.width;
    let height = gray.height;
    let cols: u64 = (width as u64 + 2) / 3;
    let mut mask = ActivationMask::blank(width, height);
    assert forall|x: int, y: int| mask.in_bounds(x, y) implies !#[trigger] mask.active(x, y) by {
        lemma_cell_index_bounds(width as int, height as int, x, y);
    }
    let mut j: u64 = 0;
    while 3 * j < height as u64
        invariant
            gray.wf(),
            width == gray.width,
            height == gray.height,
            cols == lattice_span(width as int),
            mask.wf(),
            mask.width == width,
            mask.height == height,
            3 * j <= height + 2,
            forall|x: int, y: int|
                mask.in_bounds(x, y) ==> #[trigger] mask.active(x, y) == (y < 3 * j && stippled(
                    gray@,
                    levels@,
                    x,
                    y,
                )),
        decreases height + 3 - 3 * j,
    {
        let y: u32 = (3 * j) as u32;
        let mut i: u64 = 0;
        while 3 * i < width as u64
            invariant
                gray.wf(),
                width == gray.width,
                height == gray.height,
                cols == lattice_span(width as int),
                mask.wf(),
                mask.width == width,
                mask.height == height,
                y == 3 * j,
                y < height,
                3 * i <= width + 2,
                forall|cx: int, cy: int|
                    mask.in_bounds(cx, cy) ==> #[trigger] mask.active(cx, cy) == ((cy < y || (cy
                        == y && cx < 3 * i)) && stippled(gray@, levels@, cx, cy)),
            decreases width + 3 - 3 * i,
        {
            let x: u32 = (3 * i) as u32;
            assert(j * cols + i <= 0x5555_5556 * 0x5555_5557) by (nonlinear_arith)
                requires
                    0 <= j <= 0x5555_5556,
                    0 <= cols <= 0x5555_5556,
                    0 <= i < cols,
            ;
            let k: u64 = j * cols + i;
            assert(k == lattice_index(width as int, x as int, y as int));
            let level: u8 = if k < levels.len() as u64 {
                levels[k as usize]
            } else {
                0
            };
            let dot = gray.get(x, y) < level;
            mask.set(x, y, dot);
            i = i + 1;
        }
        j = j + 1;
    }
    mask
}

} // verus!
