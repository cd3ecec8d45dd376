//! The activation mask and the order in which its cells are visited.

use crate::raster::{
    cell_count, cell_index, fits, index_of, lemma_cell_index_bounds, lemma_cell_index_injective,
    within_limits,
};
use vstd::arithmetic::div_mod::{
    lemma_fundamental_div_mod, lemma_fundamental_div_mod_converse_div,
    lemma_fundamental_div_mod_converse_mod,
};
use vstd::prelude::*;

verus! {

/// The cell that stands at position `i` of a row-major buffer, as
/// `(column, row)`.
pub open spec fn cell_of(width: int, i: int) -> (u32, u32) {
    ((i % width) as u32, (i / width) as u32)
}

/// `cell_of` undoes `cell_index`.
pub proof fn lemma_cell_of_index(width: int, x: int, y: int)
    requires
        0 <= x < width <= u32::MAX,
        0 <= y <= u32::MAX,
    ensures
        cell_of(width, cell_index(width, x, y)) == (x as u32, y as u32),
{
    lemma_fundamental_div_mod_converse_mod(y * width + x, width, y, x);
    lemma_fundamental_div_mod_converse_div(y * width + x, width, y, x);
}

/// `cell_index` undoes `cell_of`, and the cell of a position inside the
/// buffer lies inside the grid.
pub proof fn lemma_index_of_cell(width: int, height: int, i: int)
    requires
        0 <= i < width * height,
        0 <= width <= u32::MAX,
        0 <= height <= u32::MAX,
    ensures
        0 <= i % width < width,
        0 <= i / width < height,
        cell_index(width, i % width, i / width) == i,
        cell_of(width, i) == ((i % width) as u32, (i / width) as u32),
{
    assert(width > 0) by (nonlinear_arith)
        requires
            0 <= i < width * height,
            0 <= width,
    ;
    lemma_fundamental_div_mod(i, width);
    assert(width * (i / width) == (i / width) * width) by (nonlinear_arith);
    let q = i / width;
    assert(q < height) by (nonlinear_arith)
        requires
            q * width + (i % width) == i,
            0 <= i % width,
            i < width * height,
            width > 0,
    ;
    assert(q >= 0) by (nonlinear_arith)
        requires
            q * width + (i % width) == i,
            i % width < width,
            0 <= i,
            width > 0,
    ;
}

/// How many of the cells are active.
pub open spec fn active_count(cells: Seq<bool>) -> nat
    decreases cells.len(),
{
    if cells.len() == 0 {
        0
    } else {
        active_count(cells.drop_last()) + if cells.last() {
            1nat
        } else {
            0nat
        }
    }
}

/// The active cells among the first `n` positions of the buffer, in
/// row-major order: top row first, each row from left to right.
pub open spec fn active_cells(cells: Seq<bool>, width: int, n: nat) -> Seq<(u32, u32)>
    decreases n,
{
    if n == 0 {
        Seq::empty()
    } else {
        let before = active_cells(cells, width, (n - 1) as nat);
        if cells[n - 1] {
            before.push(cell_of(width, n - 1))
        } else {
            before
        }
    }
}

/// Which cells of a grid need a click.
#[derive(Debug)]
pub struct ActivationMask {
    pub width: u32,
    pub height: u32,
    pub cells: Vec<bool>,
}

impl ActivationMask {
    /// One flag for each cell, and no more cells than the limit.
    pub open spec fn wf(&self) -> bool {
        &&& fits(self.width as int, self.height as int)
        &&& self.cells@.len() == self.width * self.height
    }

    pub open spec fn in_bounds(&self, x: int, y: int) -> bool {
        0 <= x < self.width && 0 <= y < self.height
    }

    /// Whether the cell at column `x` of row `y` needs a click.
    pub open spec fn active(&self, x: int, y: int) -> bool {
        self.cells@[cell_index(self.width as int, x, y)]
    }

    /// All active cells in the order in which they are visited.
    pub open spec fn sequence(&self) -> Seq<(u32, u32)> {
        active_cells(self.cells@, self.width as int, self.cells@.len())
    }

    /// Wraps a buffer of flags as a mask, when it holds exactly one flag per
    /// cell and the cell count is within the limit.
    pub fn new(width: u32, height: u32, cells: Vec<bool>) -> (mask: Option<ActivationMask>)
        ensures
            mask is Some <==> fits(width as int, height as int) && cells@.len() == width * height,
            mask matches Some(m) ==> m.wf() && m.width == width && m.height == height && m.cells@
                == cells@,
    {
        if within_limits(width, height) && cells.len() as u64 == cell_count(width, height) {
            Some(ActivationMask { width, height, cells })
        } else {
            None
        }
    }

    /// The mask of the given size in which no cell is active.
    pub fn blank(width: u32, height: u32) -> (mask: ActivationMask)
        requires
            fits(width as int, height as int),
        ensures
            mask.wf(),
            mask.width == width,
            mask.height == height,
            forall|i: int| 0 <= i < mask.cells@.len() ==> !mask.cells@[i],
    {
        let count = cell_count(width, height);
        let cells = vec![false; count as usize];
        ActivationMask { width, height, cells }
    }

    /// Whether `(x, y)` is a cell of the grid that needs a click.
    pub fn is_active(&self, x: u32, y: u32) -> (b: bool)
        requires
            self.wf(),
        ensures
            b == (self.in_bounds(x as int, y as int) && self.active(x as int, y as int)),
    {
        if x < self.width && y < self.height {
            self.cells[index_of(self.width, self.height, x, y)]
        } else {
            false
        }
    }

    /// Sets the flag of one cell and leaves every other cell as it is.
    pub fn set(&mut self, x: u32, y: u32, value: bool)
        requires
            old(self).wf(),
            x < old(self).width,
            y < old(self).height,
        ensures
            final(self).wf(),
            final(self).width == old(self).width,
            final(self).height == old(self).height,
            final(self).active(x as int, y as int) == value,
            forall|cx: int, cy: int|
                old(self).in_bounds(cx, cy) && !(cx == x && cy == y)
                    ==> #[trigger] final(self).active(cx, cy) == old(self).active(cx, cy),
    {
        let i = index_of(self.width, self.height, x, y);
        self.cells.set(i, value);
        proof {
            assert forall|cx: int, cy: int|
                old(self).in_bounds(cx, cy) && !(cx == x && cy == y) implies #[trigger] self.active(
                cx,
                cy,
            ) == old(self).active(cx, cy) by {
                lemma_cell_index_bounds(self.width as int, self.height as int, cx, cy);
                if cell_index(self.width as int, cx, cy) == i {
                    lemma_cell_index_injective(self.width as int, cx, cy, x as int, y as int);
                }
            }
        }
    }

    /// The number of active cells.
    pub fn count_active(&self) -> (n: u64)
        requires
            self.wf(),
        ensures
            n == active_count(self.cells@),
    {
        let mut n: u64 = 0;
        let mut i: usize = 0;
        while i < self.cells.len()
            invariant
                self.wf(),
                i <= self.cells@.len(),
                n == active_count(self.cells@.take(i as int)),
                n <= i,
            decreases self.cells@.len() - i,
        {
            assert(self.cells@.take(i + 1).drop_last() == self.cells@.take(i as int));
            if self.cells[i] {
                n = n + 1;
            }
            i = i + 1;
        }
        assert(self.cells@.take(i as int) == self.cells@);
        n
    }

    /// The grid coordinates of the active cells in row-major order.
    pub fn action_sequence(&self) -> (cells: Vec<(u32, u32)>)
        requires
            self.wf(),
        ensures
            cells@ == self.sequence(),
    {
        let mut out: Vec<(u32, u32)> = Vec::new();
        let mut i: usize = 0;
        let mut y: u32 = 0;
        while y < self.height
            invariant
                self.wf(),
                y <= self.height,
                i == y * self.width,
                out@ == active_cells(self.cells@, self.width as int, i as nat),
            decreases self.height - y,
        {
            let mut x: u32 = 0;
            while x < self.width
                invariant
                    self.wf(),
                    y < self.height,
                    x <= self.width,
                    i == y * self.width + x,
                    out@ == active_cells(self.cells@, self.width as int, i as nat),
                decreases self.width - x,
            {
                proof {
                    lemma_cell_index_bounds(
                        self.width as int,
                        self.height as int,
                        x as int,
                        y as int,
                    );
                    lemma_cell_of_index(self.width as int, x as int, y as int);
                }
                if self.cells[i] {
                    out.push((x, y));
                }
                i = i + 1;
                x = x + 1;
            }
            assert((y + 1) * self.width == y * self.width + self.width) by (nonlinear_arith);
            y = y + 1;
        }
        assert(self.height * self.width == self.width * self.height) by (nonlinear_arith);
        out
    }
}

/// A mask is determined by its size and by which of its cells are active:
/// two masks of one size that agree cell by cell hold the same flags.
pub proof fn lemma_masks_agree(first: ActivationMask, second: ActivationMask)
    requires
        first.wf(),
        second.wf(),
        first.width == second.width,
        first.height == second.height,
        forall|x: int, y: int|
            first.in_bounds(x, y) ==> #[trigger] first.active(x, y) == second.active(x, y),
    ensures
        first.cells@ == second.cells@,
{
    let width = first.width as int;
    assert forall|i: int| 0 <= i < first.cells@.len() implies first.cells@[i]
        == second.cells@[i] by {
        lemma_index_of_cell(width, first.height as int, i);
        assert(first.in_bounds(i % width, i / width));
        assert(first.active(i % width, i / width) == first.cells@[i]);
        assert(second.active(i % width, i / width) == second.cells@[i]);
    }
    assert(first.cells@ =~= second.cells@);
}

/// What the order of visits amounts to: each visited cell is an active cell
/// of the grid, the visits go strictly forward in row-major order, and no
/// active cell among the first `n` positions is left out.
pub proof fn lemma_active_cells(cells: Seq<bool>, width: int, height: int, n: nat)
    requires
        0 <= width <= u32::MAX,
        0 <= height <= u32::MAX,
        cells.len() == width * height,
        n <= cells.len(),
    ensures
        forall|k: int|
            0 <= k < active_cells(cells, width, n).len() ==> {
                let c = #[trigger] active_cells(cells, width, n)[k];
                &&& c.0 < width
                &&& c.1 < height
                &&& cells[cell_index(width, c.0 as int, c.1 as int)]
                &&& cell_index(width, c.0 as int, c.1 as int) < n
            },
        forall|j: int, k: int|
            0 <= j < k < active_cells(cells, width, n).len() ==> {
                let a = #[trigger] active_cells(cells, width, n)[j];
                let b = #[trigger] active_cells(cells, width, n)[k];
                cell_index(width, a.0 as int, a.1 as int) < cell_index(
                    width,
                    b.0 as int,
                    b.1 as int,
                )
            },
        forall|i: int|
            0 <= i < n && cells[i] ==> active_cells(cells, width, n).contains(
                #[trigger] cell_of(width, i),
            ),
        active_cells(cells, width, n).len() <= n,
        active_cells(cells, width, n).no_duplicates(),
    decreases n,
{
    let s = active_cells(cells, width, n);
    if n > 0 {
        let before = active_cells(cells, width, (n - 1) as nat);
        lemma_active_cells(cells, width, height, (n - 1) as nat);
        lemma_index_of_cell(width, height, n - 1);
        if cells[n - 1] {
            assert(s == before.push(cell_of(width, n - 1)));
            assert(s[s.len() - 1] == cell_of(width, n - 1));
            assert forall|i: int| 0 <= i < n && cells[i] implies s.contains(
                #[trigger] cell_of(width, i),
            ) by {
                if i < n - 1 {
                    let k = choose|k: int| 0 <= k < before.len() && before[k] == cell_of(width, i);
                    assert(s[k] == cell_of(width, i));
                } else {
                    assert(s[s.len() - 1] == cell_of(width, i));
                }
            }
        } else {
            assert(s == before);
        }
    }
    assert forall|a: int, b: int| 0 <= a < s.len() && 0 <= b < s.len() && a != b implies s[a]
        != s[b] by {
        if a < b {
            assert(cell_index(width, s[a].0 as int, s[a].1 as int) < cell_index(
                width,
                s[b].0 as int,
                s[b].1 as int,
            ));
        } else {
            assert(cell_index(width, s[b].0 as int, s[b].1 as int) < cell_index(
                width,
                s[a].0 as int,
                s[a].1 as int,
            ));
        }
    }
}

/// No more cells are active than there are cells; all are when every flag
/// is set, and none is when no flag is set.
pub proof fn lemma_active_count(cells: Seq<bool>)
    ensures
        active_count(cells) <= cells.len(),
        (forall|i: int| 0 <= i < cells.len() ==> cells[i]) ==> active_count(cells) == cells.len(),
        (forall|i: int| 0 <= i < cells.len() ==> !cells[i]) ==> active_count(cells) == 0,
    decreases cells.len(),
{
    if cells.len() > 0 {
        lemma_active_count(cells.drop_last());
    }
}

/// There are as many visits as active cells.
pub proof fn lemma_sequence_length(cells: Seq<bool>, width: int, n: nat)
    requires
        n <= cells.len(),
    ensures
        active_cells(cells, width, n).len() == active_count(cells.take(n as int)),
    decreases n,
{
    if n > 0 {
        lemma_sequence_length(cells, width, (n - 1) as nat);
        assert(cells.take(n as int).drop_last() == cells.take(n - 1));
        assert(cells.take(n as int).last() == cells[n - 1]);
    }
}

/// The action sequence of a mask visits each active cell of the grid once,
/// no other cell, and the cells in row-major order: rows from the top, each
/// row from the left.
pub proof fn lemma_sequence_is_row_major(mask: ActivationMask)
    requires
        mask.wf(),
    ensures
        mask.sequence().len() == active_count(mask.cells@),
        mask.sequence().no_duplicates(),
        forall|k: int|
            0 <= k < mask.sequence().len() ==> {
                let c = #[trigger] mask.sequence()[k];
                mask.in_bounds(c.0 as int, c.1 as int) && mask.active(c.0 as int, c.1 as int)
            },
        forall|x: int, y: int|
            mask.in_bounds(x, y) && mask.active(x, y) ==> mask.sequence().contains(
                (x as u32, y as u32),
            ),
        forall|j: int, k: int|
            0 <= j < k < mask.sequence().len() ==> {
                let a = #[trigger] mask.sequence()[j];
                let b = #[trigger] mask.sequence()[k];
                a.1 < b.1 || (a.1 == b.1 && a.0 < b.0)
            },
{
    let cells = mask.cells@;
    let width = mask.width as int;
    let height = mask.height as int;
    let s = mask.sequence();
    lemma_active_cells(cells, width, height, cells.len());
    lemma_sequence_length(cells, width, cells.len());
    assert(cells.take(cells.len() as int) == cells);
    assert forall|x: int, y: int| mask.in_bounds(x, y) && mask.active(x, y) implies s.contains(
        (x as u32, y as u32),
    ) by {
        lemma_cell_index_bounds(width, height, x, y);
        lemma_cell_of_index(width, x, y);
        assert(s.contains(cell_of(width, cell_index(width, x, y))));
    }
    assert forall|j: int, k: int| 0 <= j < k < s.len() implies {
        let a = #[trigger] s[j];
        let b = #[trigger] s[k];
        a.1 < b.1 || (a.1 == b.1 && a.0 < b.0)
    } by {
        let a = s[j];
        let b = s[k];
        assert(cell_index(width, a.0 as int, a.1 as int) < cell_index(
            width,
            b.0 as int,
            b.1 as int,
        ));
        if a.1 > b.1 {
            assert((a.1 - b.1) * width >= width) by (nonlinear_arith)
                requires
                    a.1 - b.1 >= 1,
                    width >= 0,
            ;
            assert(a.1 * width - b.1 * width == (a.1 - b.1) * width) by (nonlinear_arith);
        }
    }
}

} // verus!
