use tile_path::{Game, GridPosition, InputEvent, PlayerAnimationVariant, WorldPoint};

fn cell_center(c: GridPosition) -> WorldPoint {
    WorldPoint { x: 32 * c.x - 16, y: 32 * c.y - 16 }
}

#[test]
fn toggled_cell_leaves_the_path_on_the_same_tick() {
    let mut g = Game::new(GridPosition { x: 1, y: 1 }, 500);
    g.register_target(GridPosition { x: 8, y: 8 }, true);
    g.tick(&vec![], 0);
    let first = g.path.clone().unwrap();
    assert_eq!(first.len(), 15);

    // Block the cell the mover would step to next; the recompute of the same
    // tick must already route around it.
    let blocked = first[1];
    g.tick(&vec![InputEvent::ToggleWallAt(cell_center(blocked))], 0);
    let rerouted = g.path.clone().unwrap();
    assert!(!rerouted.contains(&blocked));
    assert_eq!(rerouted[0], GridPosition { x: 1, y: 1 });
    assert_eq!(rerouted[rerouted.len() - 1], GridPosition { x: 8, y: 8 });
    assert_eq!(rerouted.len(), 15);
}

#[test]
fn clicks_outside_the_board_change_nothing() {
    let mut g = Game::new(GridPosition { x: 1, y: 1 }, 500);
    g.register_target(GridPosition { x: 8, y: 8 }, true);
    g.tick(&vec![InputEvent::ToggleWallAt(WorldPoint { x: -40, y: 700 })], 0);
    assert_eq!(g.obstacles.cells().len(), 0);
    assert_eq!(g.path.clone().unwrap().len(), 15);
}

#[test]
fn five_cell_walk_advances_four_cells_in_under_five_periods() {
    // A straight five-cell path, one step each half second, watched for 2.4
    // seconds of 100 ms ticks: four steps happen, the fifth is still pending
    // when the mover reaches the last cell and goes idle.
    let start = GridPosition { x: 1, y: 1 };
    let goal = GridPosition { x: 5, y: 1 };
    let mut g = Game::new(start, 500);
    g.register_target(goal, true);
    assert_eq!(g.animation.variant, PlayerAnimationVariant::Idle);

    let mut moves = 0;
    let mut last_pos = start;
    for tick_no in 1..=24 {
        g.tick(&vec![], 100);
        if g.player != last_pos {
            moves += 1;
            last_pos = g.player;
        }
        let elapsed_ms = tick_no * 100;
        if elapsed_ms <= 2000 {
            assert_eq!(g.animation.variant, PlayerAnimationVariant::Walking);
        }
        if elapsed_ms >= 2100 {
            assert_eq!(g.animation.variant, PlayerAnimationVariant::Idle);
        }
    }
    assert_eq!(moves, 4);
    assert_eq!(g.player, goal);
    assert!(g.path.clone().unwrap().len() < 2);
}

#[test]
fn cycling_targets_reroutes_the_path() {
    let mut g = Game::new(GridPosition { x: 1, y: 1 }, 500);
    g.register_target(GridPosition { x: 8, y: 1 }, true);
    g.register_target(GridPosition { x: 1, y: 8 }, false);
    g.tick(&vec![], 0);
    let p = g.path.clone().unwrap();
    assert_eq!(p[p.len() - 1], GridPosition { x: 8, y: 1 });

    g.tick(&vec![InputEvent::CycleTarget], 0);
    let p = g.path.clone().unwrap();
    assert_eq!(p[p.len() - 1], GridPosition { x: 1, y: 8 });
}

#[test]
fn no_active_target_clears_the_path_and_idles() {
    let mut g = Game::new(GridPosition { x: 2, y: 2 }, 500);
    g.register_target(GridPosition { x: 6, y: 6 }, false);
    g.tick(&vec![], 100);
    assert!(g.path.is_none());
    assert_eq!(g.animation.variant, PlayerAnimationVariant::Idle);
    assert_eq!(g.player, GridPosition { x: 2, y: 2 });
}

#[test]
fn walled_in_target_idles_the_mover() {
    let mut g = Game::new(GridPosition { x: 1, y: 1 }, 500);
    g.register_target(GridPosition { x: 5, y: 5 }, true);
    let walls = vec![
        InputEvent::ToggleWallAt(cell_center(GridPosition { x: 5, y: 4 })),
        InputEvent::ToggleWallAt(cell_center(GridPosition { x: 5, y: 6 })),
        InputEvent::ToggleWallAt(cell_center(GridPosition { x: 4, y: 5 })),
        InputEvent::ToggleWallAt(cell_center(GridPosition { x: 6, y: 5 })),
    ];
    g.tick(&walls, 600);
    assert!(g.path.is_none());
    assert_eq!(g.player, GridPosition { x: 1, y: 1 });
    assert_eq!(g.animation.variant, PlayerAnimationVariant::Idle);
}
