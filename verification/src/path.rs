//! Greedy ordering of points into a path.

use vstd::prelude::*;

verus! {

/// How many of the remaining points are looked at in the search for the
/// nearest one.
pub const SEARCH_WINDOW: usize = 500;

/// Most points that a path visits.
pub const MAX_VISITS: usize = 10000;

/// Square of the straight-line distance between two cells.
pub open spec fn distance_sq(a: (u32, u32), b: (u32, u32)) -> int {
    (a.0 - b.0) * (a.0 - b.0) + (a.1 - b.1) * (a.1 - b.1)
}

/// How many of `len` remaining points the search looks at.
pub open spec fn window(len: nat) -> nat {
    if len < SEARCH_WINDOW {
        len
    } else {
        SEARCH_WINDOW as nat
    }
}

/// Position of the point nearest to `from` among the first `n` of `points`;
/// of several at the same distance, the first.
pub open spec fn nearest_among(points: Seq<(u32, u32)>, from: (u32, u32), n: nat) -> int
    decreases n,
{
    if n <= 1 {
        0
    } else {
        let best = nearest_among(points, from, (n - 1) as nat);
        if distance_sq(points[n - 1], from) < distance_sq(points[best], from) {
            n - 1
        } else {
            best
        }
    }
}

/// The path that starts next to `from` and goes on greedily through
/// `remaining`: each step moves to the nearest of the points in the search
/// window and takes it out, until no point or no budget is left.
pub open spec fn greedy_path(remaining: Seq<(u32, u32)>, from: (u32, u32), budget: nat) -> Seq<
    (u32, u32),
>
    decreases budget,
{
    if budget == 0 || remaining.len() == 0 {
        Seq::empty()
    } else {
        let i = nearest_among(remaining, from, window(remaining.len()));
        seq![remaining[i]] + greedy_path(remaining.remove(i), remaining[i], (budget - 1) as nat)
    }
}

/// The order in which the points are visited: the first point, then the
/// greedy path through the others, `MAX_VISITS` points at most.
pub open spec fn visiting_order(points: Seq<(u32, u32)>) -> Seq<(u32, u32)> {
    if points.len() == 0 {
        Seq::empty()
    } else {
        seq![points[0]] + greedy_path(points.remove(0), points[0], (MAX_VISITS - 1) as nat)
    }
}

/// The nearest point is one of the first `n`, none of them is nearer, and
/// none before it is as near.
pub proof fn lemma_nearest_among(points: Seq<(u32, u32)>, from: (u32, u32), n: nat)
    requires
        1 <= n <= points.len(),
    ensures
        0 <= nearest_among(points, from, n) < n,
        forall|j: int|
            0 <= j < n ==> distance_sq(points[nearest_among(points, from, n)], from)
                <= distance_sq(#[trigger] points[j], from),
        forall|j: int|
            0 <= j < nearest_among(points, from, n) ==> distance_sq(
                points[nearest_among(points, from, n)],
                from,
            ) < distance_sq(#[trigger] points[j], from),
    decreases n,
{
    if n > 1 {
        lemma_nearest_among(points, from, (n - 1) as nat);
    }
}

/// What a greedy path is made of: it is no longer than its budget nor than
/// the points it was given, it visits only those points, and it visits none
/// twice where none was given twice.
pub proof fn lemma_greedy_path(remaining: Seq<(u32, u32)>, from: (u32, u32), budget: nat)
    ensures
        greedy_path(remaining, from, budget).len() == if budget < remaining.len() {
            budget
        } else {
            remaining.len()
        },
        forall|k: int|
            0 <= k < greedy_path(remaining, from, budget).len() ==> remaining.contains(
                #[trigger] greedy_path(remaining, from, budget)[k],
            ),
        remaining.no_duplicates() ==> greedy_path(remaining, from, budget).no_duplicates(),
    decreases budget,
{
    if budget == 0 || remaining.len() == 0 {
    } else {
        let path = greedy_path(remaining, from, budget);
        let i = nearest_among(remaining, from, window(remaining.len()));
        lemma_nearest_among(remaining, from, window(remaining.len()));
        let rest_points = remaining.remove(i);
        let rest = greedy_path(rest_points, remaining[i], (budget - 1) as nat);
        lemma_greedy_path(rest_points, remaining[i], (budget - 1) as nat);
        remaining.remove_ensures(i);
        assert(path == seq![remaining[i]] + rest);
        assert forall|k: int| 0 <= k < path.len() implies remaining.contains(
            #[trigger] path[k],
        ) by {
            if k == 0 {
                assert(path[0] == remaining[i]);
            } else {
                assert(path[k] == rest[k - 1]);
                assert(rest_points.contains(rest[k - 1]));
                let j = choose|j: int| 0 <= j < rest_points.len() && rest_points[j] == rest[k - 1];
                if j < i {
                    assert(remaining[j] == rest[k - 1]);
                } else {
                    assert(remaining[j + 1] == rest[k - 1]);
                }
            }
        }
        if remaining.no_duplicates() {
            assert(rest_points.no_duplicates()) by {
                assert forall|a: int, b: int|
                    0 <= a < rest_points.len() && 0 <= b < rest_points.len() && a != b implies rest_points[a]
                    != rest_points[b] by {
                    let a2 = if a < i {
                        a
                    } else {
                        a + 1
                    };
                    let b2 = if b < i {
                        b
                    } else {
                        b + 1
                    };
                    assert(rest_points[a] == remaining[a2]);
                    assert(rest_points[b] == remaining[b2]);
                }
            }
            assert(!rest_points.contains(remaining[i])) by {
                if rest_points.contains(remaining[i]) {
                    let j = choose|j: int|
                        0 <= j < rest_points.len() && rest_points[j] == remaining[i];
                    let j2 = if j < i {
                        j
                    } else {
                        j + 1
                    };
                    assert(rest_points[j] == remaining[j2]);
                }
            }
            assert forall|a: int, b: int|
                0 <= a < path.len() && 0 <= b < path.len() && a != b implies path[a]
                != path[b] by {
                if a == 0 {
                    assert(path[b] == rest[b - 1]);
                    assert(rest_points.contains(rest[b - 1]));
                } else if b == 0 {
                    assert(path[a] == rest[a - 1]);
                    assert(rest_points.contains(rest[a - 1]));
                } else {
                    assert(path[a] == rest[a - 1]);
                    assert(path[b] == rest[b - 1]);
                }
            }
        }
    }
}

/// What an order of visits is made of: it holds `MAX_VISITS` points at most,
/// all of them if there are no more than that; each of them is one of the
/// given points; and none comes twice where none was given twice.
pub proof fn lemma_visiting_order(points: Seq<(u32, u32)>)
    ensures
        visiting_order(points).len() == if points.len() > MAX_VISITS {
            MAX_VISITS as nat
        } else {
            points.len()
        },
        forall|k: int|
            0 <= k < visiting_order(points).len() ==> points.contains(
                #[trigger] visiting_order(points)[k],
            ),
        points.no_duplicates() ==> visiting_order(points).no_duplicates(),
{
    if points.len() > 0 {
        let order = visiting_order(points);
        let rest_points = points.remove(0);
        let rest = greedy_path(rest_points, points[0], (MAX_VISITS - 1) as nat);
        lemma_greedy_path(rest_points, points[0], (MAX_VISITS - 1) as nat);
        points.remove_ensures(0);
        assert(order == seq![points[0]] + rest);
        assert forall|k: int| 0 <= k < order.len() implies points.contains(
            #[trigger] order[k],
        ) by {
            if k == 0 {
                assert(order[0] == points[0]);
            } else {
                assert(order[k] == rest[k - 1]);
                assert(rest_points.contains(rest[k - 1]));
                let j = choose|j: int| 0 <= j < rest_points.len() && rest_points[j] == rest[k - 1];
                assert(points[j + 1] == rest[k - 1]);
            }
        }
        if points.no_duplicates() {
            assert(rest_points.no_duplicates()) by {
                assert forall|a: int, b: int|
                    0 <= a < rest_points.len() && 0 <= b < rest_points.len() && a != b implies rest_points[a]
                    != rest_points[b] by {
                    assert(rest_points[a] == points[a + 1]);
                    assert(rest_points[b] == points[b + 1]);
                }
            }
            assert(!rest_points.contains(points[0])) by {
                if rest_points.contains(points[0]) {
                    let j = choose|j: int| 0 <= j < rest_points.len() && rest_points[j] == points[0];
                    assert(rest_points[j] == points[j + 1]);
                }
            }
            assert forall|a: int, b: int|
                0 <= a < order.len() && 0 <= b < order.len() && a != b implies order[a]
                != order[b] by {
                if a == 0 {
                    assert(order[b] == rest[b - 1]);
                    assert(rest_points.contains(rest[b - 1]));
                } else if b == 0 {
                    assert(order[a] == rest[a - 1]);
                    assert(rest_points.contains(rest[a - 1]));
                } else {
                    assert(order[a] == rest[a - 1]);
                    assert(order[b] == rest[b - 1]);
                }
            }
        }
    }
}

/// Square of the straight-line distance between two cells.
pub fn squared_distance(a: (u32, u32), b: (u32, u32)) -> (d: u128)
    ensures
        d == distance_sq(a, b),
{
    let dx: u128 = if a.0 >= b.0 {
        (a.0 - b.0) as u128
    } else {
        (b.0 - a.0) as u128
    };
    let dy: u128 = if a.1 >= b.1 {
        (a.1 - b.1) as u128
    } else {
        (b.1 - a.1) as u128
    };
    assert(dx * dx <= 0xFFFF_FFFF * 0xFFFF_FFFF) by (nonlinear_arith)
        requires
            0 <= dx <= 0xFFFF_FFFF,
    ;
    assert(dy * dy <= 0xFFFF_FFFF * 0xFFFF_FFFF) by (nonlinear_arith)
        requires
            0 <= dy <= 0xFFFF_FFFF,
    ;
    assert(dx * dx == (a.0 - b.0) * (a.0 - b.0)) by (nonlinear_arith)
        requires
            dx == a.0 - b.0 || dx == b.0 - a.0,
    ;
    assert(dy * dy == (a.1 - b.1) * (a.1 - b.1)) by (nonlinear_arith)
        requires
            dy == a.1 - b.1 || dy == b.1 - a.1,
    ;
    dx * dx + dy * dy
}

/// Position of the point nearest to `from` among the first points of
/// `points` that the search window holds.
pub fn nearest_index(points: &Vec<(u32, u32)>, from: (u32, u32)) -> (best: usize)
    requires
        points@.len() > 0,
    ensures
        best == nearest_among(points@, from, window(points@.len())),
        best < points@.len(),
{
    let limit = if points.len() < SEARCH_WINDOW {
        points.len()
    } else {
        SEARCH_WINDOW
    };
    let mut best: usize = 0;
    let mut best_distance = squared_distance(points[0], from);
    let mut i: usize = 1;
    while i < limit
        invariant
            1 <= i <= limit <= points@.len(),
            limit == window(points@.len()),
            best == nearest_among(points@, from, i as nat),
            best < i,
            best_distance == distance_sq(points@[best as int], from),
        decreases limit - i,
    {
        let d = squared_distance(points[i], from);
        if d < best_distance {
            best = i;
            best_distance = d;
        }
        i = i + 1;
    }
    best
}

/// Puts the points into the order in which a pointer visits them: it starts
/// at the first point and always moves on to the nearest point in the search
/// window.
pub fn order_points(points: Vec<(u32, u32)>) -> (order: Vec<(u32, u32)>)
    ensures
        order@ == visiting_order(points@),
        order@.len() <= MAX_VISITS,
        order@.len() <= points@.len(),
        forall|k: int| 0 <= k < order@.len() ==> points@.contains(#[trigger] order@[k]),
        points@.no_duplicates() ==> order@.no_duplicates(),
{
    proof {
        lemma_visiting_order(points@);
    }
    let mut remaining = points;
    let mut order: Vec<(u32, u32)> = Vec::new();
    if remaining.len() == 0 {
        return order;
    }
    let mut current = remaining.remove(0);
    order.push(current);
    while remaining.len() > 0 && order.len() < MAX_VISITS
        invariant
            1 <= order@.len() <= MAX_VISITS,
            order@ + greedy_path(remaining@, current, (MAX_VISITS - order@.len()) as nat)
                == visiting_order(points@),
        decreases remaining@.len(),
    {
        let i = nearest_index(&remaining, current);
        let ghost before = remaining@;
        let ghost budget = (MAX_VISITS - order@.len()) as nat;
        let ghost from = current;
        let ghost visited = order@;
        current = remaining.remove(i);
        order.push(current);
        proof {
            let rest = greedy_path(remaining@, current, (budget - 1) as nat);
            assert(greedy_path(before, from, budget) == seq![current] + rest);
            assert(order@ + rest == visited + (seq![current] + rest));
        }
    }
    proof {
        let budget = (MAX_VISITS - order@.len()) as nat;
        assert(greedy_path(remaining@, current, budget) == Seq::<(u32, u32)>::empty());
        assert(order@ + Seq::<(u32, u32)>::empty() == order@);
    }
    order
}

} // verus!
