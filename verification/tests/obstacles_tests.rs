use tile_path::obstacles::ToggleOutcome;
use tile_path::{GridPosition, ObstacleSet};

#[test]
fn toggle_inserts_then_removes() {
    let mut set = ObstacleSet::new();
    let cell = GridPosition { x: 3, y: 4 };
    assert!(!set.contains(cell));
    assert_eq!(set.toggle_wall(cell), ToggleOutcome::Inserted);
    assert!(set.contains(cell));
    assert_eq!(set.toggle_wall(cell), ToggleOutcome::Removed);
    assert!(!set.contains(cell));
}

#[test]
fn toggle_twice_restores_prior_state() {
    let mut set = ObstacleSet::new();
    let kept = GridPosition { x: 2, y: 2 };
    let cell = GridPosition { x: 5, y: 5 };
    set.toggle_wall(kept);

    // absent -> present -> absent
    set.toggle_wall(cell);
    set.toggle_wall(cell);
    assert!(!set.contains(cell));
    assert!(set.contains(kept));

    // present -> absent -> present
    set.toggle_wall(kept);
    set.toggle_wall(kept);
    assert!(set.contains(kept));
}

#[test]
fn toggle_ignores_protected_corners() {
    let mut set = ObstacleSet::new();
    assert_eq!(set.toggle_wall(GridPosition { x: 1, y: 1 }), ToggleOutcome::Ignored);
    assert_eq!(set.toggle_wall(GridPosition { x: 8, y: 8 }), ToggleOutcome::Ignored);
    assert!(!set.contains(GridPosition { x: 1, y: 1 }));
    assert!(!set.contains(GridPosition { x: 8, y: 8 }));
    // the other two corners are ordinary cells
    assert_eq!(set.toggle_wall(GridPosition { x: 1, y: 8 }), ToggleOutcome::Inserted);
    assert_eq!(set.toggle_wall(GridPosition { x: 8, y: 1 }), ToggleOutcome::Inserted);
}

#[test]
fn toggle_ignores_off_board_cells() {
    let mut set = ObstacleSet::new();
    assert_eq!(set.toggle_wall(GridPosition { x: 0, y: 4 }), ToggleOutcome::Ignored);
    assert_eq!(set.toggle_wall(GridPosition { x: 4, y: 9 }), ToggleOutcome::Ignored);
    assert_eq!(set.cells().len(), 0);
}

#[test]
fn cells_lists_each_blocked_cell_once() {
    let mut set = ObstacleSet::new();
    set.toggle_wall(GridPosition { x: 2, y: 3 });
    set.toggle_wall(GridPosition { x: 4, y: 5 });
    set.toggle_wall(GridPosition { x: 2, y: 3 });
    let cells = set.cells();
    assert_eq!(cells.len(), 1);
    assert_eq!(cells[0], GridPosition { x: 4, y: 5 });
}
