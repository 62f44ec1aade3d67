//! The dynamic registry of blocked cells.
//!
//! The registry is the only mutable shared state the pathfinder consults.
//! Its contents never include a cell off the board, and never the two pinned
//! corners: the origin corner `(1, 1)` (the mover's start) and the far corner
//! `(GRID_SIZE, GRID_SIZE)`, for which a toggle is a no-op.

use vstd::prelude::*;

use crate::grid::GRID_SIZE;
use crate::grid::GridPosition;
use crate::grid::valid_cell;

verus! {

/// Cells the registry refuses to toggle: the pinned start and target corners.
pub open spec fn protected_cell(c: GridPosition) -> bool {
    ||| (c.x == 1 && c.y == 1)
    ||| (c.x == GRID_SIZE && c.y == GRID_SIZE)
}

/// What one toggle does to the registry's contents: off-board and protected
/// cells are ignored; a present cell leaves; an absent cell enters.
pub open spec fn spec_toggle(s: Set<GridPosition>, c: GridPosition) -> Set<GridPosition> {
    if !valid_cell(c) || protected_cell(c) {
        s
    } else if s.contains(c) {
        s.remove(c)
    } else {
        s.insert(c)
    }
}

/// What a toggle did, so the rendering collaborator can place or despawn the
/// matching wall visual.
#[derive(Copy, Clone, Eq, PartialEq, Debug, Structural)]
pub enum ToggleOutcome {
    /// The cell was absent and is now blocked.
    Inserted,
    /// The cell was blocked and is now free.
    Removed,
    /// The cell is off the board or protected; nothing changed.
    Ignored,
}

/// The set of blocked cells, abstracted as a `Set<GridPosition>`.
pub struct ObstacleSet {
    cells: Vec<GridPosition>,
}

impl View for ObstacleSet {
    type V = Set<GridPosition>;

    closed spec fn view(&self) -> Set<GridPosition> {
        self.cells@.to_set()
    }
}

impl ObstacleSet {
    /// Well-formed: only board cells, never a protected corner, no cell twice.
    pub closed spec fn wf(self) -> bool {
        &&& forall|i: int|
            0 <= i < self.cells@.len() ==> valid_cell(#[trigger] self.cells@[i])
                && !protected_cell(self.cells@[i])
        &&& forall|i: int, j: int|
            #![trigger self.cells@[i], self.cells@[j]]
            0 <= i < j < self.cells@.len() ==> self.cells@[i] != self.cells@[j]
    }

    /// An empty registry.
    pub fn new() -> (r: Self)
        ensures
            r.wf(),
            r@ == Set::<GridPosition>::empty(),
    {
        let r = ObstacleSet { cells: Vec::new() };
        proof {
            assert(r.cells@.to_set() =~= Set::<GridPosition>::empty());
        }
        r
    }

    /// Every blocked cell is on the board and unprotected.
    pub proof fn lemma_contents_valid(&self)
        requires
            self.wf(),
        ensures
            forall|c: GridPosition|
                #[trigger] self@.contains(c) ==> valid_cell(c) && !protected_cell(c),
    {
        assert forall|c: GridPosition| #[trigger] self@.contains(c) implies valid_cell(c)
            && !protected_cell(c) by {
            let i = choose|i: int| 0 <= i < self.cells@.len() && self.cells@[i] == c;
            assert(valid_cell(self.cells@[i]));
        }
    }

    /// Pure membership query, used by the pathfinder's neighbor filter.
    pub fn contains(&self, cell: GridPosition) -> (r: bool)
        ensures
            r == self@.contains(cell),
    {
        let n = self.cells.len();
        let mut i: usize = 0;
        while i < n
            invariant
                n == self.cells@.len(),
                0 <= i <= n,
                forall|k: int| 0 <= k < i ==> self.cells@[k] != cell,
            decreases n - i,
        {
            if self.cells[i] == cell {
                assert(self.cells@.contains(cell));
                return true;
            }
            i += 1;
        }
        assert(!self.cells@.contains(cell));
        false
    }

    /// The blocked cells as a list, for the rendering collaborator and the
    /// pathfinder; its elements are exactly the registry's contents, each
    /// listed once.
    pub fn cells(&self) -> (r: &Vec<GridPosition>)
        requires
            self.wf(),
        ensures
            r@.to_set() == self@,
            forall|i: int, j: int|
                #![trigger r@[i], r@[j]]
                0 <= i < j < r@.len() ==> r@[i] != r@[j],
    {
        &self.cells
    }

    /// Toggle one cell: remove it if present, insert it if absent, and say
    /// which happened. Off-board cells and the two protected corners are
    /// ignored, so the registry's invariant is kept.
    pub fn toggle_wall(&mut self, cell: GridPosition) -> (r: ToggleOutcome)
        requires
            old(self).wf(),
        ensures
            final(self).wf(),
            final(self)@ == spec_toggle(old(self)@, cell),
            r == ToggleOutcome::Ignored <==> (!valid_cell(cell) || protected_cell(cell)),
            r == ToggleOutcome::Removed <==> (valid_cell(cell) && !protected_cell(cell)
                && old(self)@.contains(cell)),
            r == ToggleOutcome::Inserted <==> (valid_cell(cell) && !protected_cell(cell)
                && !old(self)@.contains(cell)),
    {
        if cell.x < 1 || cell.x > GRID_SIZE || cell.y < 1 || cell.y > GRID_SIZE {
            return ToggleOutcome::Ignored;
        }
        if cell.min() || cell.max() {
            return ToggleOutcome::Ignored;
        }
        let ghost s0 = self.cells@;
        let n = self.cells.len();
        let mut i: usize = 0;
        while i < n
            invariant
                self.cells@ == s0,
                s0 == old(self).cells@,
                old(self).wf(),
                n == s0.len(),
                0 <= i <= n,
                forall|k: int| 0 <= k < i ==> s0[k] != cell,
            decreases n - i,
        {
            if self.cells[i] == cell {
                let ghost at = i as int;
                self.cells.remove(i);
                proof {
                    assert(s0.contains(cell));
                    lemma_remove_unique(s0, at);
                    let t = s0.remove(at);
                    s0.remove_ensures(at);
                    assert forall|j: int|
                        0 <= j < t.len() implies valid_cell(#[trigger] t[j]) && !protected_cell(
                        t[j],
                    ) by {
                        if j < at {
                            assert(t[j] == s0[j]);
                        } else {
                            assert(t[j] == s0[j + 1]);
                        }
                    }
                    assert forall|a: int, b: int|
                        #![trigger t[a], t[b]]
                        0 <= a < b < t.len() implies t[a] != t[b] by {
                        let a2: int = if a < at { a } else { a + 1 };
                        let b2: int = if b < at { b } else { b + 1 };
                        assert(t[a] == s0[a2]);
                        assert(t[b] == s0[b2]);
                        assert(s0[a2] != s0[b2]);
                    }
                }
                return ToggleOutcome::Removed;
            }
            i += 1;
        }
        assert(!s0.contains(cell));
        self.cells.push(cell);
        proof {
            lemma_push_to_set(s0, cell);
        }
        ToggleOutcome::Inserted
    }
}

/// Appending one element inserts it into the sequence's set of elements.
proof fn lemma_push_to_set(s: Seq<GridPosition>, c: GridPosition)
    ensures
        s.push(c).to_set() == s.to_set().insert(c),
{
    assert forall|x: GridPosition| #[trigger] s.push(c).contains(x) implies s.contains(x) || x
        == c by {
        let i = choose|i: int| 0 <= i < s.push(c).len() && s.push(c)[i] == x;
        if i < s.len() {
            assert(s[i] == x);
        }
    }
    assert forall|x: GridPosition| s.contains(x) implies #[trigger] s.push(c).contains(x) by {
        let i = choose|i: int| 0 <= i < s.len() && s[i] == x;
        assert(s.push(c)[i] == x);
    }
    assert(s.push(c)[s.len() as int] == c);
    assert(s.push(c).to_set() =~= s.to_set().insert(c));
}

/// Removing the only occurrence of an element removes it from the sequence's
/// set of elements.
proof fn lemma_remove_unique(s: Seq<GridPosition>, at: int)
    requires
        0 <= at < s.len(),
        forall|i: int, j: int| #![trigger s[i], s[j]] 0 <= i < j < s.len() ==> s[i] != s[j],
    ensures
        s.remove(at).to_set() == s.to_set().remove(s[at]),
{
    let c = s[at];
    let t = s.remove(at);
    assert forall|x: GridPosition| #[trigger] t.contains(x) implies s.contains(x) && x != c by {
        let i = choose|i: int| 0 <= i < t.len() && t[i] == x;
        if i < at {
            assert(s[i] == x);
            assert(s[i] != s[at]);
        } else {
            assert(s[i + 1] == x);
            assert(s[at] != s[i + 1]);
        }
    }
    assert forall|x: GridPosition| s.contains(x) && x != c implies #[trigger] t.contains(x) by {
        let i = choose|i: int| 0 <= i < s.len() && s[i] == x;
        if i < at {
            assert(t[i] == x);
        } else {
            assert(i > at);
            assert(t[i - 1] == x);
        }
    }
    assert(t.to_set() =~= s.to_set().remove(c));
}

/// Toggling the same cell twice returns the registry to its prior contents:
/// toggle is its own inverse, whatever the cell.
pub proof fn lemma_toggle_involutive(s: Set<GridPosition>, c: GridPosition)
    ensures
        spec_toggle(spec_toggle(s, c), c) == s,
{
    if valid_cell(c) && !protected_cell(c) {
        if s.contains(c) {
            assert(spec_toggle(spec_toggle(s, c), c) =~= s);
        } else {
            assert(spec_toggle(spec_toggle(s, c), c) =~= s);
        }
    }
}

} // verus!
