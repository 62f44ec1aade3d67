//! Shortest-path search over the 4-connected grid graph.
//!
//! A route is a non-empty cell sequence that starts at the mover's cell,
//! ends at the goal, and steps only between adjacent board cells that are
//! not blocked. The search itself is the breadth-first search of the
//! `pathfinding` crate; this module states what that search returns — one
//! route of minimum length, or `None` exactly when no route exists — and
//! proves everything downstream of it.

use vstd::prelude::*;

use crate::grid::GRID_SIZE;
use crate::grid::GridPosition;
use crate::grid::valid_cell;
use crate::obstacles::ObstacleSet;
use crate::targets::TargetSelector;
use crate::targets::active_index;
use crate::targets::has_active;
use pathfinding::directed::bfs::bfs;

verus! {

/// Whether two cells are one step apart (Manhattan distance 1, never
/// diagonal).
pub open spec fn adjacent(a: GridPosition, b: GridPosition) -> bool {
    ||| (a.x == b.x && (a.y - b.y == 1 || b.y - a.y == 1))
    ||| (a.y == b.y && (a.x - b.x == 1 || b.x - a.x == 1))
}

/// The Manhattan distance between two cells: the least number of grid steps
/// between them on an empty board.
pub open spec fn manhattan(a: GridPosition, b: GridPosition) -> int {
    (if a.x >= b.x {
        a.x - b.x
    } else {
        b.x - a.x
    }) + (if a.y >= b.y {
        a.y - b.y
    } else {
        b.y - a.y
    })
}

/// Whether the searcher may step from `a` to `b`: both on the board, one
/// step apart, and `b` not blocked. The mover's own cell is exempt from the
/// blocked test, so a wall under the mover never strands the search.
pub open spec fn step_ok(a: GridPosition, b: GridPosition, blocked: Set<GridPosition>) -> bool {
    &&& valid_cell(a)
    &&& valid_cell(b)
    &&& adjacent(a, b)
    &&& !blocked.contains(b)
}

/// A walkable route from `start` to `goal`: non-empty, with every step
/// admissible. A single-cell sequence is a route exactly when
/// `start == goal`.
pub open spec fn is_route(
    s: Seq<GridPosition>,
    start: GridPosition,
    goal: GridPosition,
    blocked: Set<GridPosition>,
) -> bool {
    &&& s.len() >= 1
    &&& s[0] == start
    &&& s[s.len() - 1] == goal
    &&& forall|i: int| 1 <= i < s.len() ==> step_ok(s[i - 1], #[trigger] s[i], blocked)
}

/// Appending one element to a sequence adds exactly it to the members.
proof fn lemma_push_contains(s: Seq<GridPosition>, c: GridPosition)
    ensures
        forall|x: GridPosition| #[trigger] s.push(c).contains(x) <==> (s.contains(x) || x == c),
{
    assert forall|x: GridPosition| #[trigger] s.push(c).contains(x) implies s.contains(x) || x
        == c by {
        let i = choose|i: int| 0 <= i < s.push(c).len() && s.push(c)[i] == x;
        if i < s.len() {
            assert(s[i] == x);
        }
    }
    assert forall|x: GridPosition| s.contains(x) || x == c implies #[trigger] s.push(c).contains(
        x,
    ) by {
        if s.contains(x) {
            let i = choose|i: int| 0 <= i < s.len() && s[i] == x;
            assert(s.push(c)[i] == x);
        } else {
            assert(s.push(c)[s.len() as int] == x);
        }
    }
}

/// Append `(x, y)` when it names an unblocked board cell.
fn push_if_open(r: &mut Vec<GridPosition>, x: i32, y: i32, blocked: &ObstacleSet)
    ensures
        final(r)@ == if crate::grid::in_grid(x as int, y as int) && !blocked@.contains(
            GridPosition { x, y },
        ) {
            old(r)@.push(GridPosition { x, y })
        } else {
            old(r)@
        },
{
    if let Some(cell) = GridPosition::try_new(x, y) {
        if !blocked.contains(cell) {
            r.push(cell);
        }
    }
}

/// The walkable neighbors of `p`, in the fixed expansion order down, up,
/// left, right, so repeated searches on unchanged inputs expand alike. The
/// result holds exactly the cells one admissible step away from `p`.
pub fn neighbors(p: GridPosition, blocked: &ObstacleSet) -> (r: Vec<GridPosition>)
    ensures
        forall|q: GridPosition| r@.contains(q) <==> step_ok(p, q, blocked@),
{
    let mut r: Vec<GridPosition> = Vec::new();
    if p.x < 1 || p.x > GRID_SIZE || p.y < 1 || p.y > GRID_SIZE {
        return r;
    }
    let ghost s0 = r@;
    push_if_open(&mut r, p.x, p.y - 1, blocked);
    let ghost s1 = r@;
    push_if_open(&mut r, p.x, p.y + 1, blocked);
    let ghost s2 = r@;
    push_if_open(&mut r, p.x - 1, p.y, blocked);
    let ghost s3 = r@;
    push_if_open(&mut r, p.x + 1, p.y, blocked);
    proof {
        let down = GridPosition { x: p.x, y: (p.y - 1) as i32 };
        let up = GridPosition { x: p.x, y: (p.y + 1) as i32 };
        let left = GridPosition { x: (p.x - 1) as i32, y: p.y };
        let right = GridPosition { x: (p.x + 1) as i32, y: p.y };
        lemma_push_contains(s0, down);
        lemma_push_contains(s1, up);
        lemma_push_contains(s2, left);
        lemma_push_contains(s3, right);
        assert(s0.len() == 0);
        assert forall|q: GridPosition| r@.contains(q) implies step_ok(p, q, blocked@) by {}
        assert forall|q: GridPosition| step_ok(p, q, blocked@) implies r@.contains(q) by {
            assert(q == down || q == up || q == left || q == right);
        }
    }
    r
}

/// Whether `p` is the sought goal cell.
fn reached(p: &GridPosition, goal: &GridPosition) -> (r: bool)
    ensures
        r == (*p == *goal),
{
    p.x == goal.x && p.y == goal.y
}

/// Relies on `pathfinding::directed::bfs::bfs`: breadth-first search from
/// `start` with a first-in-first-out frontier, expanding by the successor
/// function (here `neighbors`, so successor means `step_ok`) and stopping at
/// the first node that passes the goal test (here `reached`, equality with
/// `goal`). It returns one shortest successor chain, comprising both ends,
/// or `None` exactly when the goal is unreachable; a `start` that is itself
/// the goal comes straight back as a one-cell chain.
#[verifier::external_body]
fn bfs_grid(start: GridPosition, goal: GridPosition, blocked: &ObstacleSet) -> (r: Option<
    Vec<GridPosition>,
>)
    ensures
        r matches Some(p) ==> is_route(p@, start, goal, blocked@),
        r matches Some(p) ==> forall|t: Seq<GridPosition>|
            is_route(t, start, goal, blocked@) ==> p@.len() <= t.len(),
        r is None ==> forall|t: Seq<GridPosition>| !is_route(t, start, goal, blocked@),
{
    bfs(&start, |p: &GridPosition| neighbors(*p, blocked), |p: &GridPosition| reached(p, &goal))
}

/// Every route covers at least the Manhattan distance: each step brings the
/// mover at most one closer to the goal.
pub proof fn lemma_route_lower_bound(
    t: Seq<GridPosition>,
    start: GridPosition,
    goal: GridPosition,
    blocked: Set<GridPosition>,
)
    requires
        is_route(t, start, goal, blocked),
    ensures
        t.len() >= manhattan(start, goal) + 1,
    decreases t.len(),
{
    if t.len() == 1 {
        assert(start == goal);
    } else {
        let n = t.len() as int;
        let t2 = t.take(n - 1);
        let goal2 = t[n - 2];
        assert(step_ok(t[n - 2], t[n - 1], blocked));
        assert forall|i: int| 1 <= i < t2.len() implies step_ok(t2[i - 1], #[trigger] t2[i], blocked) by {
            assert(t2[i] == t[i]);
            assert(t2[i - 1] == t[i - 1]);
            assert(step_ok(t[i - 1], t[i], blocked));
        }
        assert(is_route(t2, start, goal2, blocked));
        lemma_route_lower_bound(t2, start, goal2, blocked);
        assert(manhattan(goal2, goal) == 1);
    }
}

/// Whether every cell beside `goal` is blocked.
pub open spec fn surrounded(goal: GridPosition, blocked: Set<GridPosition>) -> bool {
    forall|c: GridPosition| adjacent(c, goal) ==> blocked.contains(c)
}

/// With the goal walled in on all four sides and the mover elsewhere on an
/// unblocked cell, no route reaches the goal: its last step would have to
/// start on a blocked cell.
pub proof fn lemma_no_route_surrounded(
    start: GridPosition,
    goal: GridPosition,
    blocked: Set<GridPosition>,
)
    requires
        start != goal,
        !blocked.contains(start),
        surrounded(goal, blocked),
    ensures
        forall|t: Seq<GridPosition>| !is_route(t, start, goal, blocked),
{
    assert forall|t: Seq<GridPosition>| !is_route(t, start, goal, blocked) by {
        if is_route(t, start, goal, blocked) {
            let n = t.len() as int;
            assert(t[n - 1] == goal);
            assert(t[0] == start);
            assert(n >= 2);
            assert(step_ok(t[n - 2], t[n - 1], blocked));
            assert(adjacent(t[n - 2], goal));
            assert(blocked.contains(t[n - 2]));
            if n == 2 {
                assert(t[0] == t[n - 2]);
            } else {
                assert(step_ok(t[n - 3], t[n - 2], blocked));
            }
        }
    }
}

/// Breadth-first shortest path from `start` to `goal` honoring the blocked
/// set: one minimum-length route, both ends included, or `None` exactly
/// when no route exists. Unreachability is a normal outcome, not a fault —
/// in particular a goal walled in on all four sides is unreachable.
pub fn find_path(start: GridPosition, goal: GridPosition, blocked: &ObstacleSet) -> (r: Option<
    Vec<GridPosition>,
>)
    ensures
        r matches Some(p) ==> is_route(p@, start, goal, blocked@),
        r matches Some(p) ==> forall|t: Seq<GridPosition>|
            is_route(t, start, goal, blocked@) ==> p@.len() <= t.len(),
        r is Some <==> exists|t: Seq<GridPosition>| is_route(t, start, goal, blocked@),
        r matches Some(p) ==> forall|i: int| 1 <= i < p@.len() ==> adjacent(p@[i - 1], #[trigger] p@[i]),
        r matches Some(p) ==> forall|i: int| 1 <= i < p@.len() ==> !blocked@.contains(
            #[trigger] p@[i],
        ),
        r matches Some(p) ==> (!blocked@.contains(start) ==> forall|i: int|
            0 <= i < p@.len() ==> !blocked@.contains(#[trigger] p@[i])),
        start != goal && !blocked@.contains(start) && surrounded(goal, blocked@) ==> r is None,
        r matches Some(p) ==> p@.len() >= manhattan(start, goal) + 1,
{
    let r = bfs_grid(start, goal, blocked);
    proof {
        if r is Some {
            let p = r->Some_0;
            assert(is_route(p@, start, goal, blocked@));
            assert(exists|t: Seq<GridPosition>| is_route(t, start, goal, blocked@));
            lemma_route_lower_bound(p@, start, goal, blocked@);
        }
        if start != goal && !blocked@.contains(start) && surrounded(goal, blocked@) {
            lemma_no_route_surrounded(start, goal, blocked@);
        }
    }
    r
}

/// The cell of the active point of interest.
pub open spec fn goal_of(s: Seq<crate::targets::PointOfInterest>) -> GridPosition {
    s[active_index(s)].cell
}

/// One pathfinding pass, as the per-tick recompute runs it: skipped — `None`
/// — while the mover is missing or no point of interest is active
/// (recoverable setup states), otherwise the shortest route from the mover
/// to the active target under the current obstacles.
pub fn pathfinding(
    player: Option<GridPosition>,
    targets: &TargetSelector,
    obstacles: &ObstacleSet,
) -> (r: Option<Vec<GridPosition>>)
    requires
        targets.wf(),
    ensures
        r is Some ==> player is Some && has_active(targets@),
        r matches Some(p) ==> is_route(p@, player->Some_0, goal_of(targets@), obstacles@),
        r matches Some(p) ==> forall|t: Seq<GridPosition>|
            is_route(t, player->Some_0, goal_of(targets@), obstacles@) ==> p@.len() <= t.len(),
        player is Some && has_active(targets@) ==> (r is Some <==> exists|t: Seq<GridPosition>|
            is_route(t, player->Some_0, goal_of(targets@), obstacles@)),
{
    match player {
        None => None,
        Some(start) => match targets.active() {
            None => None,
            Some(poi) => {
                let r = find_path(start, poi.cell, obstacles);
                proof {
                    let goal = goal_of(targets@);
                    assert(goal == poi.cell);
                    if exists|t: Seq<GridPosition>| is_route(t, start, goal, obstacles@) {
                        let t = choose|t: Seq<GridPosition>| is_route(t, start, goal, obstacles@);
                        assert(is_route(t, start, poi.cell, obstacles@));
                    }
                }
                r
            },
        },
    }
}

} // verus!
