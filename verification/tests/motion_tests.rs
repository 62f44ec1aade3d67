use tile_path::motion::{animate_player, path_traversal};
use tile_path::{GridPosition, PlayerAnimationState, PlayerAnimationVariant, StepTimer};

#[test]
fn timer_finishes_once_per_period() {
    let mut t = StepTimer::new(500);
    assert!(!t.tick(100));
    assert!(!t.tick(100));
    assert!(!t.tick(100));
    assert!(!t.tick(100));
    assert!(t.tick(100));
    assert_eq!(t.elapsed_ms, 0);
}

#[test]
fn timer_levels_a_long_tick_to_one_finish() {
    let mut t = StepTimer::new(500);
    assert!(t.tick(1200));
    assert_eq!(t.elapsed_ms, 200);
    assert!(!t.tick(100));
    assert_eq!(t.elapsed_ms, 300);
}

#[test]
fn walking_steps_to_the_second_path_cell_on_finish() {
    let path = Some(vec![
        GridPosition { x: 1, y: 1 },
        GridPosition { x: 2, y: 1 },
        GridPosition { x: 3, y: 1 },
    ]);
    let mut timer = StepTimer::new(500);
    let mut player = GridPosition { x: 1, y: 1 };
    let mut anim = PlayerAnimationState { variant: PlayerAnimationVariant::Idle, idx: 0 };

    path_traversal(&path, &mut timer, &mut player, &mut anim, 100);
    assert_eq!(player, GridPosition { x: 1, y: 1 });
    assert_eq!(anim.variant, PlayerAnimationVariant::Walking);

    path_traversal(&path, &mut timer, &mut player, &mut anim, 400);
    assert_eq!(player, GridPosition { x: 2, y: 1 });
    assert_eq!(anim.variant, PlayerAnimationVariant::Walking);
}

#[test]
fn exhausted_path_goes_idle_and_stays_put() {
    let path = Some(vec![GridPosition { x: 3, y: 3 }]);
    let mut timer = StepTimer::new(500);
    let mut player = GridPosition { x: 3, y: 3 };
    let mut anim = PlayerAnimationState { variant: PlayerAnimationVariant::Walking, idx: 24 };

    path_traversal(&path, &mut timer, &mut player, &mut anim, 700);
    assert_eq!(player, GridPosition { x: 3, y: 3 });
    assert_eq!(anim.variant, PlayerAnimationVariant::Idle);
    assert_eq!(anim.idx, 0);
    // the timer was not run while idle
    assert_eq!(timer.elapsed_ms, 0);

    path_traversal(&None, &mut timer, &mut player, &mut anim, 700);
    assert_eq!(player, GridPosition { x: 3, y: 3 });
    assert_eq!(anim.variant, PlayerAnimationVariant::Idle);
}

#[test]
fn animation_pages_and_wrapping() {
    assert_eq!(PlayerAnimationVariant::Idle.page(), (0, 6));
    assert_eq!(PlayerAnimationVariant::Walking.page(), (24, 6));

    let mut s = PlayerAnimationState { variant: PlayerAnimationVariant::Idle, idx: 0 };
    let frames: Vec<usize> = (0..7).map(|_| s.wrapping_next_idx()).collect();
    assert_eq!(frames, vec![1, 2, 3, 4, 5, 0, 1]);

    s.transition_variant(PlayerAnimationVariant::Walking);
    assert_eq!(s.idx, 24);
    let frames: Vec<usize> = (0..6).map(|_| s.wrapping_next_idx()).collect();
    assert_eq!(frames, vec![25, 26, 27, 28, 29, 24]);
}

#[test]
fn animate_player_advances_one_frame_per_timer_finish() {
    let mut anim = PlayerAnimationState { variant: PlayerAnimationVariant::Idle, idx: 0 };
    let mut frame_timer = StepTimer::new(100);
    assert_eq!(animate_player(&mut anim, &mut frame_timer, 60), None);
    assert_eq!(animate_player(&mut anim, &mut frame_timer, 60), Some(1));
    assert_eq!(anim.idx, 1);
    assert_eq!(animate_player(&mut anim, &mut frame_timer, 100), Some(2));
}
