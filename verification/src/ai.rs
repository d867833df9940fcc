//! A* pathfinding over the map's walkable graph.
//!
//! The search itself is done by the pathfinding crate; everything it is
//! trusted for is written down on `find_astar_path`. The graph it searches
//! is the one `Point::successors` builds, whose meaning is `spec_successors`.

use vstd::prelude::*;

use crate::map::DungeonMapComponent;
use crate::util::{abs_diff, spec_clamped_distance, Point};

verus! {

/// Whether to highlight computed pursuit paths on the map.
pub const DEBUG_AI: bool = true;

/// The eight neighbour offsets, in the order the successor function
/// tries them: the four orthogonal ones first, then the diagonals.
pub open spec fn spec_offsets() -> Seq<(int, int)> {
    seq![(0, 1), (0, -1), (1, 0), (-1, 0), (-1, -1), (1, 1), (1, -1), (-1, 1)]
}

/// The successor list after considering the first `k` offsets.
pub open spec fn successors_upto(
    m: DungeonMapComponent,
    p: Point,
    goal: Point,
    k: int,
) -> Seq<(Point, u32)>
    decreases k,
{
    if k <= 0 {
        Seq::empty()
    } else {
        let prev = successors_upto(m, p, goal, k - 1);
        let off = spec_offsets()[k - 1];
        let nx = p.x + off.0;
        let ny = p.y + off.1;
        if i32::MIN <= nx <= i32::MAX && i32::MIN <= ny <= i32::MAX && ((!m.spec_blocked(nx, ny)
            && !m.spec_occupied(nx, ny)) || (Point { x: nx as i32, y: ny as i32 }) == goal) {
            prev.push(
                (
                    Point { x: nx as i32, y: ny as i32 },
                    if k - 1 > 3 {
                        14u32
                    } else {
                        10u32
                    },
                ),
            )
        } else {
            prev
        }
    }
}

/// The successors of `p` in the walkable graph towards `goal`: each of
/// the eight neighbours that is neither blocked nor occupied — or is the
/// goal itself — with cost 10 orthogonally and 14 diagonally.
pub open spec fn spec_successors(m: DungeonMapComponent, p: Point, goal: Point) -> Seq<
    (Point, u32),
> {
    successors_upto(m, p, goal, 8)
}

/// Two points are distinct and differ by at most one in each axis.
pub open spec fn adjacent8(p: Point, q: Point) -> bool {
    abs_diff(q.x as int, p.x as int) <= 1 && abs_diff(q.y as int, p.y as int) <= 1 && q != p
}

/// One legal search step from `p` to `q`: 8-adjacent, and `q` is walkable
/// (neither blocked nor occupied) or is the goal itself.
pub open spec fn step_ok(m: DungeonMapComponent, goal: Point, p: Point, q: Point) -> bool {
    &&& adjacent8(p, q)
    &&& ((!m.spec_blocked(q.x as int, q.y as int) && !m.spec_occupied(q.x as int, q.y as int)) || q
        == goal)
}

/// `path` is a walk through the successor graph from `start` (inclusive)
/// to `goal` (inclusive).
pub open spec fn is_path(
    m: DungeonMapComponent,
    path: Seq<Point>,
    start: Point,
    goal: Point,
) -> bool {
    &&& path.len() >= 1
    &&& path[0] == start
    &&& path.last() == goal
    &&& forall|i: int| 0 <= i < path.len() - 1 ==> step_ok(m, goal, path[i], #[trigger] path[i + 1])
}

/// Some path leads from `start` to `goal`.
pub open spec fn reachable(m: DungeonMapComponent, start: Point, goal: Point) -> bool {
    exists|path: Seq<Point>| is_path(m, path, start, goal)
}

/// The cost of one step: 14 if it moves on both axes, else 10.
pub open spec fn step_cost(p: Point, q: Point) -> int {
    if p.x != q.x && p.y != q.y {
        14
    } else {
        10
    }
}

/// The total cost of a path: the sum of its step costs.
pub open spec fn path_cost(path: Seq<Point>) -> int
    decreases path.len(),
{
    if path.len() <= 1 {
        0
    } else {
        step_cost(path[0], path[1]) + path_cost(path.drop_first())
    }
}

/// A cheapest path: a path from `start` to `goal` that no other such
/// path undercuts.
pub open spec fn minimal_path(
    m: DungeonMapComponent,
    p: Seq<Point>,
    start: Point,
    goal: Point,
) -> bool {
    &&& is_path(m, p, start, goal)
    &&& forall|q: Seq<Point>| is_path(m, q, start, goal) ==> path_cost(q) >= path_cost(p)
}

/// Path costs are never negative.
pub proof fn lemma_path_cost_nonneg(p: Seq<Point>)
    ensures
        path_cost(p) >= 0,
    decreases p.len(),
{
    if p.len() > 1 {
        lemma_path_cost_nonneg(p.drop_first());
    }
}

/// A cheapest path from a point to itself is the one-point path.
pub proof fn lemma_minimal_self_path(m: DungeonMapComponent, p: Seq<Point>, start: Point)
    requires
        minimal_path(m, p, start, start),
    ensures
        p.len() == 1,
{
    let unit = seq![start];
    assert(is_path(m, unit, start, start));
    if p.len() >= 2 {
        lemma_path_cost_nonneg(p.drop_first());
        assert(path_cost(p) >= 10);
        assert(path_cost(unit) >= path_cost(p));
        assert(false);
    }
}

/// The point lies strictly inside the map's walled border.
pub open spec fn interior(m: DungeonMapComponent, p: Point) -> bool {
    1 <= p.x < m.width() - 1 && 1 <= p.y < m.height() - 1
}

/// The heuristic the search uses: Manhattan distance divided by three, a
/// coarse underestimate of the true cost.
fn heuristic(p: &Point, goal: &Point) -> (r: u32)
    ensures
        r == spec_clamped_distance(*p, *goal) / 3,
{
    let d = p.distance(goal);
    d / 3
}

/// Whether the search has reached its goal.
fn is_goal(p: &Point, goal: &Point) -> (r: bool)
    ensures
        r == (*p == *goal),
{
    p.x == goal.x && p.y == goal.y
}

/// Relies on pathfinding's `astar`: it returns a lowest-cost path through
/// the graph that the successor closure describes, from `start` up to a
/// node satisfying the goal test, both included, and `None` exactly when
/// no such path exists. The closures only call this crate's verified
/// `successors`, `heuristic` (admissible here) and `is_goal`. The
/// precondition keeps the searched graph finite, so the call returns:
/// either the goal is reachable, or the map's walled border encloses the
/// whole search. The map's size cap keeps every path cost below
/// `u32::MAX`, so the search's cost sums cannot wrap.
#[verifier::external_body]
pub fn find_astar_path(map: &DungeonMapComponent, start: Point, goal: Point) -> (r: Option<
    Vec<Point>,
>)
    requires
        map.dims_ok(),
        reachable(*map, start, goal) || (map.wf() && interior(*map, start)),
    ensures
        match r {
            Some(path) => minimal_path(*map, path@, start, goal),
            None => !reachable(*map, start, goal),
        },
{
    let result: Option<(Vec<Point>, u32)> = pathfinding::prelude::astar(
        &start,
        |p: &Point| p.successors(map, &goal),
        |p: &Point| heuristic(p, &goal),
        |p: &Point| is_goal(p, &goal),
    );
    result.map(|f| f.0)
}

/// Any path returned by the pathfinder is a sequence of 8-adjacent
/// points that starts at the queried start and ends at the queried goal.
pub proof fn lemma_path_connectivity(
    m: DungeonMapComponent,
    path: Seq<Point>,
    start: Point,
    goal: Point,
)
    requires
        is_path(m, path, start, goal),
    ensures
        path.len() >= 1,
        path[0] == start,
        path.last() == goal,
        forall|i: int|
            0 <= i < path.len() - 1 ==> adjacent8(path[i], #[trigger] path[i + 1]),
{
    assert forall|i: int|
        0 <= i < path.len() - 1 implies adjacent8(path[i], #[trigger] path[i + 1]) by {
        assert(step_ok(m, goal, path[i], path[i + 1]));
    }
}

/// On a well-formed map, a path that starts and ends strictly inside the
/// walled border stays strictly inside it.
pub proof fn lemma_path_interior(
    m: DungeonMapComponent,
    path: Seq<Point>,
    start: Point,
    goal: Point,
)
    requires
        m.wf(),
        is_path(m, path, start, goal),
        interior(m, start),
        interior(m, goal),
    ensures
        forall|i: int| 0 <= i < path.len() ==> interior(m, #[trigger] path[i]),
{
    assert forall|i: int| 0 <= i < path.len() implies interior(m, #[trigger] path[i]) by {
        lemma_path_interior_upto(m, path, start, goal, i);
    }
}

/// Induction step for `lemma_path_interior`.
proof fn lemma_path_interior_upto(
    m: DungeonMapComponent,
    path: Seq<Point>,
    start: Point,
    goal: Point,
    i: int,
)
    requires
        m.wf(),
        is_path(m, path, start, goal),
        interior(m, start),
        interior(m, goal),
        0 <= i < path.len(),
    ensures
        interior(m, path[i]),
    decreases i,
{
    if i > 0 {
        lemma_path_interior_upto(m, path, start, goal, i - 1);
        let p = path[i - 1];
        let q = path[i];
        assert(step_ok(m, goal, path[i - 1], path[i - 1 + 1]));
        assert(step_ok(m, goal, p, q));
        if q != goal {
            assert(0 <= q.x < m.width() && 0 <= q.y < m.height());
            assert(!m.grid()[q.x as int][q.y as int].blocked);
            if q.x == 0 || q.y == 0 || q.x == m.width() - 1 || q.y == m.height() - 1 {
                assert(m.grid()[q.x as int][q.y as int].blocked);
            }
        }
    }
}

} // verus!
