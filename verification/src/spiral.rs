//! The spiral method.

use crate::mask::ActivationMask;
use crate::raster::{lemma_cell_index_bounds, GrayGrid, Samples};
use crate::scan::DARK_BELOW;
use vstd::prelude::*;

verus! {

/// The radius of sample `k` of the sweep, in twentieths of a cell: the
/// sweep starts at the centre and moves out by a twentieth of a cell from
/// each sample to the next, while its angle grows by a tenth of a radian.
pub open spec fn radius_twentieths(k: nat) -> nat {
    k
}

/// Square of the distance from the centre of a grid to its corners, in
/// twentieths of a cell: the distance is half the diagonal.
pub open spec fn corner_distance_sq(width: int, height: int) -> int {
    100 * (width * width + height * height)
}

/// Whether `count` is the number of samples of the spiral over a grid of
/// the given size: the sweep takes every sample whose radius is less than
/// the distance from the centre to a corner, and no other.
pub open spec fn is_sample_count(count: int, width: int, height: int) -> bool {
    &&& 0 <= count
    &&& count * count >= corner_distance_sq(width, height)
    &&& count > 0 ==> (count - 1) * (count - 1) < corner_distance_sq(width, height)
}

/// The number of samples that the sweep takes over a grid of the given size.
pub open spec fn sweep_length(width: int, height: int) -> int {
    choose|count: int| is_sample_count(count, width, height)
}

/// How many entries of a table of `len` sample positions belong to the sweep
/// over a grid of the given size: the sweep ends at the corner distance, so
/// entries beyond its length are not part of it.
pub open spec fn swept(len: nat, width: int, height: int) -> nat {
    if len <= sweep_length(width, height) {
        len
    } else {
        sweep_length(width, height) as nat
    }
}

/// A grid has one sample count only.
pub proof fn lemma_sample_count_unique(first: int, second: int, width: int, height: int)
    requires
        is_sample_count(first, width, height),
        is_sample_count(second, width, height),
    ensures
        first == second,
{
    if first < second {
        assert(first * first <= (second - 1) * (second - 1)) by (nonlinear_arith)
            requires
                0 <= first <= second - 1,
        ;
    } else if second < first {
        assert(second * second <= (first - 1) * (first - 1)) by (nonlinear_arith)
            requires
                0 <= second <= first - 1,
        ;
    }
}

/// Along the sweep the radius grows from each sample to every later one, and
/// every sample that is taken lies nearer to the centre than the corners do.
pub proof fn lemma_radius_grows(width: int, height: int, count: int, j: nat, k: nat)
    requires
        is_sample_count(count, width, height),
        j < k < count,
    ensures
        radius_twentieths(j) < radius_twentieths(k),
        radius_twentieths(j) * radius_twentieths(j) < radius_twentieths(k) * radius_twentieths(k),
        radius_twentieths(k) * radius_twentieths(k) < corner_distance_sq(width, height),
{
    assert(j * j < k * k) by (nonlinear_arith)
        requires
            0 <= j < k,
    ;
    assert(k * k <= (count - 1) * (count - 1)) by (nonlinear_arith)
        requires
            0 <= k <= count - 1,
    ;
}

/// The number of samples that the spiral sweep takes over a grid of the
/// given size.
pub fn sample_count(width: u32, height: u32) -> (count: u64)
    ensures
        is_sample_count(count as int, width as int, height as int),
        count == sweep_length(width as int, height as int),
{
    let count = count_samples(width, height);
    proof {
        lemma_sample_count_unique(
            count as int,
            sweep_length(width as int, height as int),
            width as int,
            height as int,
        );
    }
    count
}

/// How many entries of a table of `len` sample positions belong to the sweep
/// over a grid of the given size.
pub fn sweep_limit(len: usize, width: u32, height: u32) -> (limit: usize)
    ensures
        limit == swept(len as nat, width as int, height as int),
        limit <= len,
{
    let count = sample_count(width, height);
    if len as u64 <= count {
        len
    } else {
        count as usize
    }
}

fn count_samples(width: u32, height: u32) -> (count: u64)
    ensures
        is_sample_count(count as int, width as int, height as int),
{
    assert(width * width <= 0xFFFF_FFFF * 0xFFFF_FFFF) by (nonlinear_arith)
        requires
            0 <= width <= 0xFFFF_FFFF,
    ;
    assert(height * height <= 0xFFFF_FFFF * 0xFFFF_FFFF) by (nonlinear_arith)
        requires
            0 <= height <= 0xFFFF_FFFF,
    ;
    let w: u128 = width as u128;
    let h: u128 = height as u128;
    let target: u128 = 100 * (w * w + h * h);
    if target == 0 {
        return 0;
    }
    let mut low: u64 = 0;
    let mut high: u64 = 0x20_0000_0000;
    assert(0x20_0000_0000 * 0x20_0000_0000 >= 200 * (0xFFFF_FFFF * 0xFFFF_FFFF));
    while high - low > 1
        invariant
            low < high <= 0x20_0000_0000,
            low * low < target,
            target <= high * high,
        decreases high - low,
    {
        let middle: u64 = low + (high - low) / 2;
        assert(middle * middle <= 0x20_0000_0000 * 0x20_0000_0000) by (nonlinear_arith)
            requires
                0 <= middle <= 0x20_0000_0000,
        ;
        let square: u128 = middle as u128 * middle as u128;
        if square < target {
            low = middle;
        } else {
            high = middle;
        }
    }
    high
}

/// Whether one of the sample positions is the cell `(x, y)`.
pub open spec fn sampled(samples: Seq<(i32, i32)>, x: int, y: int) -> bool {
    exists|k: int| 0 <= k < samples.len() && (#[trigger] samples[k]).0 == x && samples[k].1 == y
}

/// Whether a sample position is a cell of a grid of the given size.
pub open spec fn on_grid(sample: (i32, i32), width: int, height: int) -> bool {
    0 <= sample.0 < width && 0 <= sample.1 < height
}

/// The cells that the first `n` sample positions hit, in the order of the
/// samples. Positions outside the grid are left out.
pub open spec fn hits(samples: Seq<(i32, i32)>, width: int, height: int, n: nat) -> Seq<
    (u32, u32),
>
    decreases n,
{
    if n == 0 {
        Seq::empty()
    } else {
        let before = hits(samples, width, height, (n - 1) as nat);
        if on_grid(samples[n - 1], width, height) {
            before.push((samples[n - 1].0 as u32, samples[n - 1].1 as u32))
        } else {
            before
        }
    }
}

/// Every hit is a cell of the grid.
pub proof fn lemma_hits_on_grid(samples: Seq<(i32, i32)>, width: int, height: int, n: nat)
    requires
        n <= samples.len(),
        0 <= width <= u32::MAX,
        0 <= height <= u32::MAX,
    ensures
        hits(samples, width, height, n).len() <= n,
        forall|k: int|
            0 <= k < hits(samples, width, height, n).len() ==> (#[trigger] hits(
                samples,
                width,
                height,
                n,
            )[k]).0 < width && hits(samples, width, height, n)[k].1 < height,
    decreases n,
{
    if n > 0 {
        lemma_hits_on_grid(samples, width, height, (n - 1) as nat);
    }
}

/// The cells of the grid that a sweep of sample positions passes over, in
/// the order of the sweep. Of a table that is longer than the sweep, only
/// the entries of the sweep are read.
pub fn cells_hit(width: u32, height: u32, samples: &Vec<(i32, i32)>) -> (cells: Vec<(u32, u32)>)
    ensures
        cells@ == hits(
            samples@,
            width as int,
            height as int,
            swept(samples@.len(), width as int, height as int),
        ),
        forall|k: int|
            0 <= k < cells@.len() ==> (#[trigger] cells@[k]).0 < width && cells@[k].1 < height,
{
    let mut cells: Vec<(u32, u32)> = Vec::new();
    let limit = sweep_limit(samples.len(), width, height);
    let mut k: usize = 0;
    while k < limit
        invariant
            k <= limit <= samples@.len(),
            cells@ == hits(samples@, width as int, height as int, k as nat),
        decreases limit - k,
    {
        let s = samples[k];
        if 0 <= s.0 && (s.0 as i64) < width as i64 && 0 <= s.1 && (s.1 as i64) < height as i64 {
            cells.push((s.0 as u32, s.1 as u32));
        }
        k = k + 1;
    }
    proof {
        lemma_hits_on_grid(samples@, width as int, height as int, limit as nat);
    }
    cells
}

/// Whether the spiral method marks cell `(x, y)`: the sweep passes over it
/// and its sample is dark. The sweep is the table's entries up to the sweep's
/// length for the grid.
pub open spec fn spiralled(gray: Samples, samples: Seq<(i32, i32)>, x: int, y: int) -> bool {
    &&& gray.at(x, y) < DARK_BELOW
    &&& sampled(
        samples.take(swept(samples.len(), gray.width as int, gray.height as int) as int),
        x,
        y,
    )
}

/// The spiral method, given the positions of the sweep: a cell is active
/// exactly when the sweep passes over it and its sample is dark. Of a table
/// that is longer than the sweep, only the entries of the sweep are read.
pub fn spiral_mask(gray: &GrayGrid, samples: &Vec<(i32, i32)>) -> (mask: ActivationMask)
    requires
        gray.wf(),
    ensures
        mask.wf(),
        mask.width == gray.width,
        mask.height == gray.height,
        forall|x: int, y: int|
            mask.in_bounds(x, y) ==> #[trigger] mask.active(x, y) == spiralled(
                gray@,
                samples@,
                x,
                y,
            ),
{
    let limit = sweep_limit(samples.len(), gray.width, gray.height);
    let mut mask = ActivationMask::blank(gray.width, gray.height);
    let mut k: usize = 0;
    assert forall|x: int, y: int| mask.in_bounds(x, y) implies #[trigger] mask.active(x, y) == (
    gray.at(x, y) < DARK_BELOW && sampled(samples@.take(0), x, y)) by {
        lemma_cell_index_bounds(gray.width as int, gray.height as int, x, y);
    }
    while k < limit
        invariant
            gray.wf(),
            mask.wf(),
            mask.width == gray.width,
            mask.height == gray.height,
            k <= limit <= samples@.len(),
            forall|x: int, y: int|
                mask.in_bounds(x, y) ==> #[trigger] mask.active(x, y) == (gray.at(x, y)
                    < DARK_BELOW && sampled(samples@.take(k as int), x, y)),
        decreases limit - k,
    {
        let s = samples[k];
        let ghost before = mask;
        if 0 <= s.0 && (s.0 as i64) < gray.width as i64 && 0 <= s.1 && (s.1 as i64)
            < gray.height as i64 {
            if gray.get(s.0 as u32, s.1 as u32) < DARK_BELOW {
                mask.set(s.0 as u32, s.1 as u32, true);
            }
        }
        proof {
            let seen = samples@.take(k as int);
            let next = samples@.take(k + 1);
            assert(next == seen.push(s));
            assert forall|x: int, y: int| mask.in_bounds(x, y) implies #[trigger] mask.active(
                x,
                y,
            ) == (gray.at(x, y) < DARK_BELOW && sampled(next, x, y)) by {
                assert(before.active(x, y) == (gray.at(x, y) < DARK_BELOW && sampled(seen, x, y)));
                if sampled(seen, x, y) {
                    let j = choose|j: int|
                        0 <= j < seen.len() && (#[trigger] seen[j]).0 == x && seen[j].1 == y;
                    assert(next[j] == seen[j]);
                }
                if s.0 == x && s.1 == y {
                    assert(next[k as int] == s);
                }
                if sampled(next, x, y) {
                    let j = choose|j: int|
                        0 <= j < next.len() && (#[trigger] next[j]).0 == x && next[j].1 == y;
                    if j < k {
                        assert(seen[j] == next[j]);
                    }
                }
            }
        }
        k = k + 1;
    }
    mask
}

} // verus!
