//! The bounded integer grid and its world-coordinate model.
//!
//! The board is a square of `GRID_SIZE` x `GRID_SIZE` cells, 1-indexed on
//! both axes. Each cell's footprint in world space is a square of
//! `GRID_BLOCK_SIZE` world units; cell `(cx, cy)` covers world points with
//! `x` in `[(cx - 1) * GRID_BLOCK_SIZE, cx * GRID_BLOCK_SIZE)` and likewise
//! for `y`, so the whole board covers `[0, GRID_SIZE * GRID_BLOCK_SIZE)` on
//! each axis. World coordinates are integer world units: the host engine
//! truncates its continuous positions to integers before handing them over.

use vstd::prelude::*;

verus! {

/// Cells per side of the square board.
pub const GRID_SIZE: i32 = 8;

/// World units per cell side.
pub const GRID_BLOCK_SIZE: i32 = 32;

/// One tile of the board, 1-indexed: both coordinates lie in
/// `1..=GRID_SIZE` whenever the position was built by `try_new`.
#[derive(Copy, Clone, Eq, PartialEq, Hash, Debug, Default, Structural)]
pub struct GridPosition {
    pub x: i32,
    pub y: i32,
}

/// A position in world space, in integer world units.
#[derive(Copy, Clone, Eq, PartialEq, Hash, Debug, Default, Structural)]
pub struct WorldPoint {
    pub x: i32,
    pub y: i32,
}

/// Whether `(x, y)` are coordinates of a cell on the board.
pub open spec fn in_grid(x: int, y: int) -> bool {
    &&& 1 <= x <= GRID_SIZE
    &&& 1 <= y <= GRID_SIZE
}

/// Whether `c` is a cell on the board.
pub open spec fn valid_cell(c: GridPosition) -> bool {
    in_grid(c.x as int, c.y as int)
}

/// Whether `p` lies inside the board's world-space footprint.
pub open spec fn in_world_bounds(p: WorldPoint) -> bool {
    &&& 0 <= p.x < GRID_SIZE * GRID_BLOCK_SIZE
    &&& 0 <= p.y < GRID_SIZE * GRID_BLOCK_SIZE
}

/// The cell whose footprint contains `p`, or `None` if `p` is outside the
/// board.
pub open spec fn world_to_cell(p: WorldPoint) -> Option<GridPosition> {
    if in_world_bounds(p) {
        Some(GridPosition {
            x: (p.x / GRID_BLOCK_SIZE + 1) as i32,
            y: (p.y / GRID_BLOCK_SIZE + 1) as i32,
        })
    } else {
        None
    }
}

/// The world-space center of cell `c`.
pub open spec fn cell_to_world(c: GridPosition) -> WorldPoint {
    WorldPoint {
        x: (c.x * GRID_BLOCK_SIZE - GRID_BLOCK_SIZE / 2) as i32,
        y: (c.y * GRID_BLOCK_SIZE - GRID_BLOCK_SIZE / 2) as i32,
    }
}

impl GridPosition {
    /// Validated construction: out-of-range coordinates give `None`, never a
    /// malformed cell.
    pub fn try_new(x: i32, y: i32) -> (r: Option<Self>)
        ensures
            r is Some <==> in_grid(x as int, y as int),
            r is Some ==> r == Some(GridPosition { x, y }),
    {
        if x <= 0 || y <= 0 || x > GRID_SIZE || y > GRID_SIZE {
            None
        } else {
            Some(Self { x, y })
        }
    }

    /// Whether this is the origin corner `(1, 1)`.
    pub fn min(self) -> (r: bool)
        ensures
            r <==> (self.x == 1 && self.y == 1),
    {
        self.x == 1 && self.y == 1
    }

    /// Whether this is the far corner `(GRID_SIZE, GRID_SIZE)`.
    pub fn max(self) -> (r: bool)
        ensures
            r <==> (self.x == GRID_SIZE && self.y == GRID_SIZE),
    {
        self.x == GRID_SIZE && self.y == GRID_SIZE
    }
}

/// The world-space center of a cell.
pub fn grid_to_translation(grid_pos: GridPosition) -> (r: WorldPoint)
    requires
        valid_cell(grid_pos),
    ensures
        r == cell_to_world(grid_pos),
        in_world_bounds(r),
{
    WorldPoint {
        x: grid_pos.x * GRID_BLOCK_SIZE - GRID_BLOCK_SIZE / 2,
        y: grid_pos.y * GRID_BLOCK_SIZE - GRID_BLOCK_SIZE / 2,
    }
}

/// The cell whose footprint contains a world point; `None` for any point
/// outside the board, so an out-of-board input is simply ignored by callers.
pub fn translation_to_grid_pos(translation: WorldPoint) -> (r: Option<GridPosition>)
    ensures
        r == world_to_cell(translation),
        r is Some <==> in_world_bounds(translation),
        r matches Some(c) ==> valid_cell(c),
{
    if translation.x < 0 || translation.y < 0 {
        None
    } else {
        let r = GridPosition::try_new(
            translation.x / GRID_BLOCK_SIZE + 1,
            translation.y / GRID_BLOCK_SIZE + 1,
        );
        proof {
            lemma_div_bounds(translation.x as int);
            lemma_div_bounds(translation.y as int);
        }
        r
    }
}

/// For a nonnegative coordinate, its cell index is on the board exactly when
/// the coordinate is under the board's world-space span.
proof fn lemma_div_bounds(v: int)
    requires
        v >= 0,
    ensures
        1 <= v / (GRID_BLOCK_SIZE as int) + 1,
        v < GRID_SIZE * GRID_BLOCK_SIZE ==> v / (GRID_BLOCK_SIZE as int) + 1 <= GRID_SIZE,
        v >= GRID_SIZE * GRID_BLOCK_SIZE ==> v / (GRID_BLOCK_SIZE as int) + 1 > GRID_SIZE,
{
    assert(v / 32 >= 0) by (nonlinear_arith)
        requires v >= 0;
    assert(v < 256 ==> v / 32 < 8) by (nonlinear_arith)
        requires v >= 0;
    assert(v >= 256 ==> v / 32 >= 8) by (nonlinear_arith)
        requires v >= 0;
}

/// A world point moved to the center of the cell that contains it; undefined
/// (ruled out by `requires`) for points outside the board.
pub fn snap_to_grid(translation: WorldPoint) -> (r: WorldPoint)
    requires
        in_world_bounds(translation),
    ensures
        r == cell_to_world(world_to_cell(translation)->Some_0),
        in_world_bounds(r),
{
    let cell = translation_to_grid_pos(translation).unwrap();
    grid_to_translation(cell)
}

/// Snapping is idempotent: the snapped point lies in the same cell as the
/// original point, so converting it to a cell again gives the same cell.
pub proof fn lemma_snap_idempotent(p: WorldPoint)
    requires
        in_world_bounds(p),
    ensures
        world_to_cell(p) is Some,
        world_to_cell(cell_to_world(world_to_cell(p)->Some_0)) == world_to_cell(p),
{
    let cx = p.x as int / 32 + 1;
    let cy = p.y as int / 32 + 1;
    lemma_div_bounds(p.x as int);
    lemma_div_bounds(p.y as int);
    lemma_center_div(cx);
    lemma_center_div(cy);
}

/// The center coordinate of a cell index divides back to that same index.
proof fn lemma_center_div(c: int)
    requires
        1 <= c <= GRID_SIZE,
    ensures
        0 <= c * (GRID_BLOCK_SIZE as int) - 16 < GRID_SIZE * GRID_BLOCK_SIZE,
        (c * (GRID_BLOCK_SIZE as int) - 16) / (GRID_BLOCK_SIZE as int) + 1 == c,
{
    assert(0 <= c * 32 - 16 < 256) by (nonlinear_arith)
        requires 1 <= c <= 8;
    assert((c * 32 - 16) / 32 == c - 1) by (nonlinear_arith)
        requires 1 <= c <= 8;
}

} // verus!
