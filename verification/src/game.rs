//! The per-tick pipeline tying the components together.
//!
//! The host drives a single-threaded update loop. Within one tick the order
//! is fixed: input events mutate the obstacle registry or the target
//! selector, then the path is recomputed from the mover's current cell, and
//! only then does the motion controller consume the fresh path. The old path
//! is replaced atomically by the recompute, so the mover never steps along
//! stale geometry, and a cell blocked this tick is already absent from the
//! path this same tick.

use vstd::prelude::*;

use crate::grid::GridPosition;
use crate::grid::WorldPoint;
use crate::grid::translation_to_grid_pos;
use crate::grid::valid_cell;
use crate::grid::world_to_cell;
use crate::motion::StepTimer;
use crate::motion::next_cell;
use crate::motion::path_traversal;
use crate::obstacles::ObstacleSet;
use crate::obstacles::spec_toggle;
use crate::pathfinder::goal_of;
use crate::pathfinder::is_route;
use crate::pathfinder::pathfinding;
use crate::player_animation::PlayerAnimationState;
use crate::player_animation::PlayerAnimationVariant;
use crate::targets::PointOfInterest;
use crate::targets::TargetSelector;
use crate::targets::has_active;
use crate::targets::spec_cycle;

verus! {

/// One decoded input event, as the input collaborator hands it over.
#[derive(Copy, Clone, PartialEq, Eq, Structural, Debug)]
pub enum InputEvent {
    /// A click at a world position: toggle the wall of the cell under it;
    /// a click outside the board does nothing.
    ToggleWallAt(WorldPoint),
    /// Move the pathfinding destination to the next point of interest.
    CycleTarget,
}

/// What a toggle at a world position does to the blocked set: nothing when
/// the position is off the board, else a toggle of the cell under it.
pub open spec fn world_toggle(s: Set<GridPosition>, p: WorldPoint) -> Set<GridPosition> {
    match world_to_cell(p) {
        Some(c) => spec_toggle(s, c),
        None => s,
    }
}

/// The blocked set after a queue of events is drained, in order.
pub open spec fn obstacles_after(s: Set<GridPosition>, evs: Seq<InputEvent>) -> Set<GridPosition>
    decreases evs.len(),
{
    if evs.len() == 0 {
        s
    } else {
        match evs[0] {
            InputEvent::ToggleWallAt(p) => obstacles_after(world_toggle(s, p), evs.drop_first()),
            InputEvent::CycleTarget => obstacles_after(s, evs.drop_first()),
        }
    }
}

/// The registered points of interest after a queue of events is drained, in
/// order.
pub open spec fn targets_after(s: Seq<PointOfInterest>, evs: Seq<InputEvent>) -> Seq<
    PointOfInterest,
>
    decreases evs.len(),
{
    if evs.len() == 0 {
        s
    } else {
        match evs[0] {
            InputEvent::ToggleWallAt(_) => targets_after(s, evs.drop_first()),
            InputEvent::CycleTarget => targets_after(spec_cycle(s), evs.drop_first()),
        }
    }
}

/// The whole board state the update loop owns: obstacle registry, target
/// selector, the mover's cell, the current path, the step timer, and the
/// two-state animation signal.
pub struct Game {
    pub obstacles: ObstacleSet,
    pub targets: TargetSelector,
    pub player: GridPosition,
    pub path: Option<Vec<GridPosition>>,
    pub movement_timer: StepTimer,
    pub animation: PlayerAnimationState,
}

impl Game {
    /// Well-formed: each component's own invariant, and the mover on the
    /// board.
    pub open spec fn wf(self) -> bool {
        &&& self.obstacles.wf()
        &&& self.targets.wf()
        &&& valid_cell(self.player)
        &&& self.movement_timer.wf()
    }

    /// A fresh board: no obstacles, no targets, no path, the mover idle at
    /// `player`, stepping once per `step_period_ms`.
    pub fn new(player: GridPosition, step_period_ms: u64) -> (r: Self)
        requires
            valid_cell(player),
            step_period_ms >= 1,
        ensures
            r.wf(),
            r.obstacles@ == Set::<GridPosition>::empty(),
            r.targets@ == Seq::<PointOfInterest>::empty(),
            r.player == player,
            r.path is None,
            r.movement_timer.period_ms == step_period_ms,
            r.movement_timer.elapsed_ms == 0,
            r.animation.variant == PlayerAnimationVariant::Idle,
            r.animation.idx == 0,
    {
        Game {
            obstacles: ObstacleSet::new(),
            targets: TargetSelector::new(),
            player,
            path: None,
            movement_timer: StepTimer::new(step_period_ms),
            animation: PlayerAnimationState {
                variant: PlayerAnimationVariant::Idle,
                idx: 0,
            },
        }
    }

    /// Register one point of interest at setup; an initially active one is
    /// only accepted while no other is active.
    pub fn register_target(&mut self, cell: GridPosition, active: bool)
        requires
            old(self).wf(),
            valid_cell(cell),
            active ==> !has_active(old(self).targets@),
        ensures
            final(self).wf(),
            final(self).targets@ == old(self).targets@.push(PointOfInterest { cell, active }),
            final(self).obstacles@ == old(self).obstacles@,
            final(self).player == old(self).player,
            final(self).path == old(self).path,
            final(self).movement_timer == old(self).movement_timer,
            final(self).animation == old(self).animation,
    {
        self.targets.register(cell, active);
    }

    /// One full tick: drain the event queue in order, recompute the path
    /// from the mover's current cell against the freshly mutated obstacle
    /// and target state, then let the motion controller take at most one
    /// step along the new path.
    pub fn tick(&mut self, events: &Vec<InputEvent>, delta_ms: u64)
        requires
            old(self).wf(),
        ensures
            final(self).wf(),
            final(self).obstacles@ == obstacles_after(old(self).obstacles@, events@),
            final(self).targets@ == targets_after(old(self).targets@, events@),
            final(self).path matches Some(p) ==> is_route(
                p@,
                old(self).player,
                goal_of(targets_after(old(self).targets@, events@)),
                obstacles_after(old(self).obstacles@, events@),
            ),
            final(self).path matches Some(p) ==> forall|t: Seq<GridPosition>|
                is_route(
                    t,
                    old(self).player,
                    goal_of(targets_after(old(self).targets@, events@)),
                    obstacles_after(old(self).obstacles@, events@),
                ) ==> p@.len() <= t.len(),
            has_active(targets_after(old(self).targets@, events@)) ==> (final(self).path is Some
                <==> exists|t: Seq<GridPosition>|
                is_route(
                    t,
                    old(self).player,
                    goal_of(targets_after(old(self).targets@, events@)),
                    obstacles_after(old(self).obstacles@, events@),
                )),
            !has_active(targets_after(old(self).targets@, events@)) ==> final(self).path is None,
            final(self).movement_timer.period_ms == old(self).movement_timer.period_ms,
            next_cell(final(self).path) matches Some(c) ==> {
                &&& final(self).movement_timer.elapsed_ms == (old(self).movement_timer.elapsed_ms
                    + delta_ms) % (old(self).movement_timer.period_ms as int)
                &&& final(self).player == (if old(self).movement_timer.elapsed_ms + delta_ms
                    >= old(self).movement_timer.period_ms {
                    c
                } else {
                    old(self).player
                })
                &&& final(self).animation.variant == PlayerAnimationVariant::Walking
                &&& old(self).animation.variant == PlayerAnimationVariant::Walking
                    ==> final(self).animation == old(self).animation
            },
            next_cell(final(self).path) is None ==> {
                &&& final(self).movement_timer == old(self).movement_timer
                &&& final(self).player == old(self).player
                &&& final(self).animation.variant == PlayerAnimationVariant::Idle
                &&& old(self).animation.variant == PlayerAnimationVariant::Idle
                    ==> final(self).animation == old(self).animation
            },
    {
        let ghost obs0 = self.obstacles@;
        let ghost tg0 = self.targets@;
        let n = events.len();
        proof {
            assert(events@.skip(0) =~= events@);
        }
        let mut i: usize = 0;
        while i < n
            invariant
                self.obstacles.wf(),
                self.targets.wf(),
                valid_cell(self.player),
                self.movement_timer.wf(),
                n == events@.len(),
                0 <= i <= n,
                obstacles_after(obs0, events@) == obstacles_after(
                    self.obstacles@,
                    events@.skip(i as int),
                ),
                targets_after(tg0, events@) == targets_after(
                    self.targets@,
                    events@.skip(i as int),
                ),
                self.player == old(self).player,
                self.path == old(self).path,
                self.movement_timer == old(self).movement_timer,
                self.animation == old(self).animation,
                obs0 == old(self).obstacles@,
                tg0 == old(self).targets@,
            decreases n - i,
        {
            let ghost pre = events@.skip(i as int);
            proof {
                assert(pre[0] == events@[i as int]);
                assert(pre.drop_first() =~= events@.skip(i as int + 1));
            }
            match events[i] {
                InputEvent::ToggleWallAt(p) => {
                    if let Some(cell) = translation_to_grid_pos(p) {
                        let _ = self.obstacles.toggle_wall(cell);
                    }
                },
                InputEvent::CycleTarget => {
                    self.targets.cycle_point_of_interest();
                },
            }
            i += 1;
        }
        proof {
            assert(events@.skip(n as int).len() == 0);
            assert(obstacles_after(obs0, events@) == self.obstacles@);
            assert(targets_after(tg0, events@) == self.targets@);
        }
        let new_path = pathfinding(Some(self.player), &self.targets, &self.obstacles);
        self.path = new_path;
        proof {
            let obs2 = obstacles_after(obs0, events@);
            let tg2 = targets_after(tg0, events@);
            let st = self.player;
            // Bridge the route statements between the call's vocabulary and
            // the contract's: the sets and sequences are equal, so a witness
            // for either existential serves the other.
            if exists|t: Seq<GridPosition>|
                is_route(t, Some(st)->Some_0, goal_of(self.targets@), self.obstacles@) {
                let t = choose|t: Seq<GridPosition>|
                    is_route(t, Some(st)->Some_0, goal_of(self.targets@), self.obstacles@);
                assert(is_route(t, st, goal_of(tg2), obs2));
            }
            if exists|t: Seq<GridPosition>| is_route(t, st, goal_of(tg2), obs2) {
                let t = choose|t: Seq<GridPosition>| is_route(t, st, goal_of(tg2), obs2);
                assert(is_route(t, Some(st)->Some_0, goal_of(self.targets@), self.obstacles@));
            }
            if self.path is Some {
                let p = self.path->Some_0;
                if p@.len() >= 2 {
                    // The cell stepped to is a board cell, so the mover stays
                    // on the board.
                    assert(crate::pathfinder::step_ok(p@[0], p@[1], self.obstacles@));
                }
            }
        }
        path_traversal(
            &self.path,
            &mut self.movement_timer,
            &mut self.player,
            &mut self.animation,
            delta_ms,
        );
    }
}

} // verus!
