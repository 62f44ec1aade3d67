//! The path-driven motion controller.
//!
//! A leveled periodic timer sets the step cadence: however much time one
//! tick brings, at most one grid step is taken per period. While the
//! current path has a cell beyond the mover's own, the mover is `Walking`
//! and advances to that cell each time the timer finishes; otherwise it is
//! `Idle` and stays put.

use vstd::prelude::*;

use crate::grid::GridPosition;
use crate::player_animation::PlayerAnimationState;
use crate::player_animation::PlayerAnimationVariant;
use crate::player_animation::spec_next_idx;
use crate::player_animation::spec_page;
use vstd::arithmetic::div_mod::lemma_mod_add_multiples_vanish;
use vstd::arithmetic::div_mod::lemma_small_mod;

verus! {

/// A repeating timer with a fixed period, in milliseconds. It levels time
/// rather than accumulating it: a tick longer than the period finishes the
/// timer once and keeps only the remainder.
#[derive(Copy, Clone, PartialEq, Eq, Structural, Debug)]
pub struct StepTimer {
    /// Time gathered since the last finish; always under the period.
    pub elapsed_ms: u64,
    /// The period; at least one millisecond.
    pub period_ms: u64,
}

impl StepTimer {
    /// Well-formed: a positive period, with the gathered time under it.
    pub open spec fn wf(self) -> bool {
        &&& self.period_ms >= 1
        &&& self.elapsed_ms < self.period_ms
    }

    /// A fresh timer that first finishes one whole period from now.
    pub fn new(period_ms: u64) -> (r: Self)
        requires
            period_ms >= 1,
        ensures
            r.wf(),
            r.period_ms == period_ms,
            r.elapsed_ms == 0,
    {
        StepTimer { elapsed_ms: 0, period_ms }
    }

    /// Advance the timer by `delta_ms` and say whether it finished during
    /// this tick. The gathered time wraps modulo the period, so a long tick
    /// still finishes the timer only once.
    pub fn tick(&mut self, delta_ms: u64) -> (finished: bool)
        requires
            old(self).wf(),
        ensures
            final(self).wf(),
            final(self).period_ms == old(self).period_ms,
            finished <==> old(self).elapsed_ms + delta_ms >= old(self).period_ms,
            final(self).elapsed_ms == (old(self).elapsed_ms + delta_ms) % (
            old(self).period_ms as int),
    {
        let room = self.period_ms - self.elapsed_ms;
        if delta_ms >= room {
            let extra = delta_ms - room;
            let rest = extra % self.period_ms;
            proof {
                lemma_mod_add_multiples_vanish(
                    extra as int,
                    self.period_ms as int,
                );
            }
            self.elapsed_ms = rest;
            true
        } else {
            proof {
                lemma_small_mod(
                    (self.elapsed_ms + delta_ms) as nat,
                    self.period_ms as nat,
                );
            }
            self.elapsed_ms = self.elapsed_ms + delta_ms;
            false
        }
    }
}

/// The cell the mover should step to next: the one right after its own on
/// the current path, if the path reaches that far.
pub open spec fn next_cell(path: Option<Vec<GridPosition>>) -> Option<GridPosition> {
    match path {
        Some(p) => if p@.len() >= 2 {
            Some(p@[1])
        } else {
            None
        },
        None => None,
    }
}

/// One motion tick. With a step available (the path holds a cell beyond the
/// mover's own) the mover is `Walking`; the timer runs, and on each finish
/// the mover advances to that next cell. With no path, or the path consumed,
/// the mover is `Idle`, the timer rests, and nothing moves. A fresh path
/// always steps from the mover's current position — its own cell is the
/// path's head — so a recompute mid-walk never teleports the mover onto
/// stale geometry.
pub fn path_traversal(
    path: &Option<Vec<GridPosition>>,
    timer: &mut StepTimer,
    player: &mut GridPosition,
    animation: &mut PlayerAnimationState,
    delta_ms: u64,
)
    requires
        old(timer).wf(),
    ensures
        final(timer).wf(),
        final(timer).period_ms == old(timer).period_ms,
        next_cell(*path) matches Some(c) ==> {
            &&& final(timer).elapsed_ms == (old(timer).elapsed_ms + delta_ms) % (
            old(timer).period_ms as int)
            &&& *final(player) == (if old(timer).elapsed_ms + delta_ms
                >= old(timer).period_ms {
                c
            } else {
                *old(player)
            })
            &&& final(animation).variant == PlayerAnimationVariant::Walking
            &&& old(animation).variant == PlayerAnimationVariant::Walking ==> *final(animation)
                == *old(animation)
            &&& old(animation).variant != PlayerAnimationVariant::Walking
                ==> final(animation).idx == spec_page(PlayerAnimationVariant::Walking).0
        },
        next_cell(*path) is None ==> {
            &&& *final(timer) == *old(timer)
            &&& *final(player) == *old(player)
            &&& final(animation).variant == PlayerAnimationVariant::Idle
            &&& old(animation).variant == PlayerAnimationVariant::Idle ==> *final(animation)
                == *old(animation)
            &&& old(animation).variant != PlayerAnimationVariant::Idle ==> final(animation).idx
                == spec_page(PlayerAnimationVariant::Idle).0
        },
{
    let step: Option<&GridPosition> = match path {
        Some(p) => if p.len() >= 2 {
            Some(&p[1])
        } else {
            None
        },
        None => None,
    };
    match step {
        Some(path_block) => {
            if timer.tick(delta_ms) {
                *player = *path_block;
            }
            if animation.variant != PlayerAnimationVariant::Walking {
                animation.transition_variant(PlayerAnimationVariant::Walking);
            }
        },
        None => {
            if animation.variant != PlayerAnimationVariant::Idle {
                animation.transition_variant(PlayerAnimationVariant::Idle);
            }
        },
    }
}

/// One animation tick: run the frame timer, and on each finish advance one
/// sprite frame, handing back the frame index now to show; `None` while the
/// timer has not finished and nothing changed.
pub fn animate_player(
    animation: &mut PlayerAnimationState,
    frame_timer: &mut StepTimer,
    delta_ms: u64,
) -> (r: Option<usize>)
    requires
        old(frame_timer).wf(),
    ensures
        final(frame_timer).wf(),
        final(frame_timer).period_ms == old(frame_timer).period_ms,
        final(frame_timer).elapsed_ms == (old(frame_timer).elapsed_ms + delta_ms) % (
        old(frame_timer).period_ms as int),
        old(frame_timer).elapsed_ms + delta_ms >= old(frame_timer).period_ms ==> {
            &&& final(animation).variant == old(animation).variant
            &&& final(animation).idx == spec_next_idx(*old(animation))
            &&& r == Some(final(animation).idx)
        },
        old(frame_timer).elapsed_ms + delta_ms < old(frame_timer).period_ms ==> {
            &&& *final(animation) == *old(animation)
            &&& r is None
        },
{
    if frame_timer.tick(delta_ms) {
        Some(animation.wrapping_next_idx())
    } else {
        None
    }
}

} // verus!
