//! The outline method: the edge cells, walked greedily.

use crate::edges::{contour_of, detect_edges, edge_map, is_edge_map, EDGE_ABOVE};
use crate::mask::{active_cells, lemma_active_cells, lemma_index_of_cell, ActivationMask};
use crate::path::{order_points, visiting_order, MAX_VISITS};
use crate::raster::{fits, lemma_cell_index_bounds, GrayGrid, Samples};
use vstd::prelude::*;

verus! {

/// The edge cells of an edge map in row-major order.
pub open spec fn edge_cells(edges: Samples) -> Seq<(u32, u32)> {
    active_cells(
        Seq::new(edges.data.len(), |i: int| edges.data[i] > EDGE_ABOVE),
        edges.width as int,
        edges.data.len(),
    )
}

/// Whether `mask` marks exactly the cells that `points` holds.
pub open spec fn marks_points(mask: ActivationMask, points: Seq<(u32, u32)>) -> bool {
    forall|x: int, y: int|
        mask.in_bounds(x, y) ==> #[trigger] mask.active(x, y) == points.contains(
            (x as u32, y as u32),
        )
}

/// Whether `order` and `mask` are what the outline method makes of an edge
/// map: the edge cells in the order of a greedy walk, and the mask of the
/// cells that the walk visits.
pub open spec fn is_outline_of(
    mask: ActivationMask,
    order: Seq<(u32, u32)>,
    edges: Samples,
) -> bool {
    &&& mask.wf()
    &&& mask.width == edges.width
    &&& mask.height == edges.height
    &&& order == visiting_order(edge_cells(edges))
    &&& marks_points(mask, order)
}

/// The edge cells are cells of the grid, and none comes twice.
pub proof fn lemma_edge_cells(edges: Samples)
    requires
        edges.wf(),
    ensures
        edge_cells(edges).no_duplicates(),
        forall|k: int|
            0 <= k < edge_cells(edges).len() ==> (#[trigger] edge_cells(edges)[k]).0 < edges.width
                && edge_cells(edges)[k].1 < edges.height,
{
    let flags = Seq::new(edges.data.len(), |i: int| edges.data[i] > EDGE_ABOVE);
    lemma_active_cells(flags, edges.width as int, edges.height as int, flags.len());
}

/// The mask of the given size that marks the cells of `points`. A point
/// outside the grid marks nothing.
pub fn mask_of_points(width: u32, height: u32, points: &Vec<(u32, u32)>) -> (mask: ActivationMask)
    requires
        fits(width as int, height as int),
    ensures
        mask.wf(),
        mask.width == width,
        mask.height == height,
        marks_points(mask, points@),
{
    let mut mask = ActivationMask::blank(width, height);
    let mut k: usize = 0;
    assert forall|x: int, y: int| mask.in_bounds(x, y) implies #[trigger] mask.active(x, y)
        == points@.take(0).contains((x as u32, y as u32)) by {
        lemma_cell_index_bounds(width as int, height as int, x, y);
    }
    while k < points.len()
        invariant
            mask.wf(),
            mask.width == width,
            mask.height == height,
            k <= points@.len(),
            marks_points(mask, points@.take(k as int)),
        decreases points@.len() - k,
    {
        let p = points[k];
        let ghost before = mask;
        if p.0 < width && p.1 < height {
            mask.set(p.0, p.1, true);
        }
        proof {
            let seen = points@.take(k as int);
            let next = points@.take(k + 1);
            assert(next == seen.push(p));
            assert forall|x: int, y: int| mask.in_bounds(x, y) implies #[trigger] mask.active(
                x,
                y,
            ) == next.contains((x as u32, y as u32)) by {
                let c = (x as u32, y as u32);
                assert(before.active(x, y) == seen.contains(c));
                if seen.contains(c) {
                    let j = choose|j: int| 0 <= j < seen.len() && seen[j] == c;
                    assert(next[j] == c);
                }
                if c == p {
                    assert(next[k as int] == c);
                }
                if next.contains(c) {
                    let j = choose|j: int| 0 <= j < next.len() && next[j] == c;
                    if j < k {
                        assert(seen[j] == c);
                    }
                }
            }
        }
        k = k + 1;
    }
    assert(points@.take(k as int) == points@);
    mask
}

/// The outline of an edge map: its edge cells in the order of a greedy walk
/// that starts at the first of them, and the mask of the cells that the walk
/// visits. The walk visits `MAX_VISITS` cells at most and none twice.
pub fn outline_of(edges: &GrayGrid) -> (outline: (ActivationMask, Vec<(u32, u32)>))
    requires
        edges.wf(),
    ensures
        is_outline_of(outline.0, outline.1@, edges@),
        outline.1@.len() <= MAX_VISITS,
        outline.1@.no_duplicates(),
        forall|k: int|
            0 <= k < outline.1@.len() ==> edge_cells(edges@).contains(#[trigger] outline.1@[k]),
{
    let contour = contour_of(edges);
    let points = contour.action_sequence();
    proof {
        let flags = Seq::new(edges.data@.len(), |i: int| edges.data@[i] > EDGE_ABOVE);
        assert forall|i: int| 0 <= i < flags.len() implies contour.cells@[i] == flags[i] by {
            lemma_index_of_cell(edges.width as int, edges.height as int, i);
            assert(contour.in_bounds(i % (edges.width as int), i / (edges.width as int)));
            assert(contour.active(i % (edges.width as int), i / (edges.width as int))
                == contour.cells@[i]);
        }
        assert(contour.cells@ == flags);
        assert(points@ == edge_cells(edges@));
        lemma_edge_cells(edges@);
    }
    let order = order_points(points);
    let mask = mask_of_points(edges.width, edges.height, &order);
    (mask, order)
}

/// The outline method: edge detection, then the outline of the edge map.
/// Order and mask are exactly the outline of the grid's edge map.
pub fn human_outline(gray: &GrayGrid) -> (outline: (ActivationMask, Vec<(u32, u32)>))
    requires
        gray.wf(),
    ensures
        is_outline_of(outline.0, outline.1@, edge_map(gray@)),
        is_edge_map(edge_map(gray@)),
        outline.1@.len() <= MAX_VISITS,
        outline.1@.no_duplicates(),
{
    let edges = detect_edges(gray);
    outline_of(&edges)
}

} // verus!
