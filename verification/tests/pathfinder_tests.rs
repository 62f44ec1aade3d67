use tile_path::pathfinder::{find_path, neighbors, pathfinding};
use tile_path::{GridPosition, ObstacleSet, TargetSelector};

fn manhattan_adjacent(a: GridPosition, b: GridPosition) -> bool {
    (a.x - b.x).abs() + (a.y - b.y).abs() == 1
}

#[test]
fn neighbors_come_in_fixed_order() {
    let set = ObstacleSet::new();
    let n = neighbors(GridPosition { x: 2, y: 2 }, &set);
    assert_eq!(
        n,
        vec![
            GridPosition { x: 2, y: 1 },
            GridPosition { x: 2, y: 3 },
            GridPosition { x: 1, y: 2 },
            GridPosition { x: 3, y: 2 },
        ]
    );
}

#[test]
fn neighbors_filter_board_edge_and_blocked() {
    let mut set = ObstacleSet::new();
    set.toggle_wall(GridPosition { x: 2, y: 1 });
    let n = neighbors(GridPosition { x: 1, y: 1 }, &set);
    assert_eq!(n, vec![GridPosition { x: 1, y: 2 }]);
}

#[test]
fn empty_board_corner_to_corner_is_fifteen_cells() {
    let set = ObstacleSet::new();
    let start = GridPosition { x: 1, y: 1 };
    let goal = GridPosition { x: 8, y: 8 };
    let path = find_path(start, goal, &set).unwrap();
    assert_eq!(path.len(), 15);
    assert_eq!(path[0], start);
    assert_eq!(path[14], goal);
    for w in path.windows(2) {
        assert!(manhattan_adjacent(w[0], w[1]));
    }
}

#[test]
fn wall_with_one_gap_routes_through_the_gap() {
    let mut wall = ObstacleSet::new();
    for y in 2..=8 {
        wall.toggle_wall(GridPosition { x: 4, y });
    }
    let start = GridPosition { x: 1, y: 1 };
    let goal = GridPosition { x: 8, y: 8 };
    let path = find_path(start, goal, &wall).unwrap();
    assert!(path.contains(&GridPosition { x: 4, y: 1 }));
    for cell in &path {
        assert!(!wall.contains(*cell));
    }
    // The gap sits on a monhattan-monotone route between the pinned corners,
    // so the detour costs nothing: the path is still the minimum 15 cells.
    assert_eq!(path.len(), 15);
    for w in path.windows(2) {
        assert!(manhattan_adjacent(w[0], w[1]));
    }
}

#[test]
fn offset_walls_force_a_detour() {
    // Two nearly complete horizontal walls with gaps at opposite ends force
    // the route to zigzag: 8 steps to the first gap, 9 to the second, 11 to
    // the goal — 28 edges instead of the unobstructed 14.
    let mut walls = ObstacleSet::new();
    for x in 1..=7 {
        walls.toggle_wall(GridPosition { x, y: 2 });
    }
    for x in 2..=8 {
        walls.toggle_wall(GridPosition { x, y: 4 });
    }
    let path = find_path(GridPosition { x: 1, y: 1 }, GridPosition { x: 8, y: 8 }, &walls)
        .unwrap();
    assert_eq!(path.len(), 29);
    assert!(path.contains(&GridPosition { x: 8, y: 2 }));
    assert!(path.contains(&GridPosition { x: 1, y: 4 }));
    for cell in &path {
        assert!(!walls.contains(*cell));
    }
    for w in path.windows(2) {
        assert!(manhattan_adjacent(w[0], w[1]));
    }
}

#[test]
fn surrounded_goal_is_unreachable() {
    let mut set = ObstacleSet::new();
    set.toggle_wall(GridPosition { x: 5, y: 4 });
    set.toggle_wall(GridPosition { x: 5, y: 6 });
    set.toggle_wall(GridPosition { x: 4, y: 5 });
    set.toggle_wall(GridPosition { x: 6, y: 5 });
    let r = find_path(GridPosition { x: 1, y: 1 }, GridPosition { x: 5, y: 5 }, &set);
    assert!(r.is_none());
}

#[test]
fn start_equal_to_goal_is_a_single_cell_path() {
    let set = ObstacleSet::new();
    let start = GridPosition { x: 4, y: 4 };
    let path = find_path(start, start, &set).unwrap();
    assert_eq!(path, vec![start]);
}

#[test]
fn pathfinding_skips_when_player_is_missing() {
    let set = ObstacleSet::new();
    let mut sel = TargetSelector::new();
    sel.register(GridPosition { x: 8, y: 8 }, true);
    assert!(pathfinding(None, &sel, &set).is_none());
}

#[test]
fn pathfinding_skips_when_no_target_is_active() {
    let set = ObstacleSet::new();
    let mut sel = TargetSelector::new();
    sel.register(GridPosition { x: 8, y: 8 }, false);
    assert!(pathfinding(Some(GridPosition { x: 1, y: 1 }), &sel, &set).is_none());
}

#[test]
fn pathfinding_routes_to_the_active_target() {
    let set = ObstacleSet::new();
    let mut sel = TargetSelector::new();
    sel.register(GridPosition { x: 2, y: 2 }, false);
    sel.register(GridPosition { x: 6, y: 1 }, true);
    let path = pathfinding(Some(GridPosition { x: 1, y: 1 }), &sel, &set).unwrap();
    assert_eq!(path[0], GridPosition { x: 1, y: 1 });
    assert_eq!(path[path.len() - 1], GridPosition { x: 6, y: 1 });
    assert_eq!(path.len(), 6);
}
