//! The mover's two-state animation signal and sprite-frame counter.
//!
//! The animation is a closed two-variant state machine — `Idle` and
//! `Walking` — whose variant is driven purely by the motion controller.
//! Each variant owns one page of the sprite sheet: a start index and a
//! frame count; the frame counter walks that page and wraps.

use vstd::prelude::*;

verus! {

/// Which animation the mover shows.
#[derive(Copy, Clone, PartialEq, Eq, Structural, Debug, Default)]
pub enum PlayerAnimationVariant {
    /// Standing still: no path to walk.
    #[default]
    Idle,
    /// Following the computed path.
    Walking,
}

/// The sprite-sheet page of a variant: first frame index and frame count.
pub open spec fn spec_page(v: PlayerAnimationVariant) -> (usize, usize) {
    match v {
        PlayerAnimationVariant::Idle => (0usize, 6usize),
        PlayerAnimationVariant::Walking => (24usize, 6usize),
    }
}

impl PlayerAnimationVariant {
    /// The sprite-sheet page this variant plays.
    pub fn page(&self) -> (r: (usize, usize))
        ensures
            r == spec_page(*self),
    {
        match self {
            PlayerAnimationVariant::Idle => (0, 6),
            PlayerAnimationVariant::Walking => (24, 6),
        }
    }
}

/// The animation state: the current variant and the current frame index
/// into the sprite sheet.
#[derive(Copy, Clone, PartialEq, Eq, Structural, Debug, Default)]
pub struct PlayerAnimationState {
    pub variant: PlayerAnimationVariant,
    pub idx: usize,
}

/// The frame shown after one frame-timer period: the next frame of the
/// variant's page, wrapping to the page start at its end (and recovering to
/// the page start from any index off the page).
pub open spec fn spec_next_idx(s: PlayerAnimationState) -> usize {
    let (start, len) = spec_page(s.variant);
    if s.idx < start || s.idx >= (start + len - 1) as usize {
        start
    } else {
        (s.idx + 1) as usize
    }
}

impl PlayerAnimationState {
    /// The frame index lies on the current variant's page.
    pub open spec fn wf(self) -> bool {
        let (start, len) = spec_page(self.variant);
        start <= self.idx < start + len
    }

    /// Switch to the other variant, restarting at its page's first frame.
    pub fn transition_variant(&mut self, variant: PlayerAnimationVariant)
        ensures
            final(self).variant == variant,
            final(self).idx == spec_page(variant).0,
            final(self).wf(),
    {
        let (start, _len) = variant.page();
        self.variant = variant;
        self.idx = start;
    }

    /// Advance one frame within the current variant's page, wrapping at the
    /// page's end, and hand back the frame now shown.
    pub fn wrapping_next_idx(&mut self) -> (r: usize)
        ensures
            final(self).variant == old(self).variant,
            final(self).idx == spec_next_idx(*old(self)),
            r == final(self).idx,
            final(self).wf(),
    {
        let (start, len) = self.variant.page();
        let next = if self.idx < start || self.idx >= start + len - 1 {
            start
        } else {
            self.idx + 1
        };
        self.idx = next;
        next
    }
}

} // verus!
