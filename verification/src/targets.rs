//! The target selector: which point of interest is the pathfinding
//! destination.
//!
//! Points of interest are registered once, in a stable order, and at most one
//! is active at any time. Cycling deactivates the active one and activates
//! the next in registration order, wrapping around; with no active point the
//! cycle is a no-op (the chosen convention for that ambiguous case).

use vstd::prelude::*;

use crate::grid::GridPosition;
use crate::grid::valid_cell;
use vstd::arithmetic::div_mod::lemma_add_mod_noop;
use vstd::arithmetic::div_mod::lemma_mod_division_less_than_divisor;
use vstd::arithmetic::div_mod::lemma_mod_twice;
use vstd::arithmetic::div_mod::lemma_small_mod;

verus! {

/// A candidate pathfinding destination: a board cell and whether it is the
/// current target.
#[derive(Copy, Clone, Eq, PartialEq, Debug, Structural)]
pub struct PointOfInterest {
    pub cell: GridPosition,
    pub active: bool,
}

/// The index after `i` in a cyclic order of `n` entries.
pub open spec fn next_index(i: int, n: int) -> int {
    (i + 1) % n
}

/// The index that `k` cycle steps forward from `i` reach, among `n` entries.
spec fn cycle_times(i: int, n: int, k: nat) -> int
    decreases k,
{
    if k == 0 {
        i
    } else {
        cycle_times(next_index(i, n), n, (k - 1) as nat)
    }
}

/// Whether some entry of `s` is active.
pub open spec fn has_active(s: Seq<PointOfInterest>) -> bool {
    exists|i: int| 0 <= i < s.len() && s[i].active
}

/// The index of the active entry; meaningful under the at-most-one-active
/// invariant, which makes the witness unique.
pub open spec fn active_index(s: Seq<PointOfInterest>) -> int {
    choose|i: int| 0 <= i < s.len() && s[i].active
}

/// What one cycle does to the registered points: nothing while none is
/// active; otherwise the active entry turns off and the next in registration
/// order, wrapping around, turns on.
pub open spec fn spec_cycle(s: Seq<PointOfInterest>) -> Seq<PointOfInterest> {
    if !has_active(s) {
        s
    } else {
        let i = active_index(s);
        let off = PointOfInterest { cell: s[i].cell, active: false };
        let s1 = s.update(i, off);
        let j = next_index(i, s.len() as int);
        let on = PointOfInterest { cell: s1[j].cell, active: true };
        s1.update(j, on)
    }
}

/// The registered points of interest, abstracted as the sequence of their
/// records in registration order.
pub struct TargetSelector {
    pois: Vec<PointOfInterest>,
}

impl View for TargetSelector {
    type V = Seq<PointOfInterest>;

    closed spec fn view(&self) -> Seq<PointOfInterest> {
        self.pois@
    }
}

impl TargetSelector {
    /// Well-formed: every cell on the board, at most one entry active.
    pub open spec fn wf(self) -> bool {
        &&& forall|i: int| 0 <= i < self@.len() ==> valid_cell(#[trigger] self@[i].cell)
        &&& forall|i: int, j: int|
            #![trigger self@[i].active, self@[j].active]
            0 <= i < self@.len() && 0 <= j < self@.len() && self@[i].active && self@[j].active
                ==> i == j
    }

    /// A selector with nothing registered.
    pub fn new() -> (r: Self)
        ensures
            r.wf(),
            r@ == Seq::<PointOfInterest>::empty(),
    {
        let r = TargetSelector { pois: Vec::new() };
        proof {
            assert(r.pois@ =~= Seq::<PointOfInterest>::empty());
        }
        r
    }

    /// Register one point of interest at setup, appended in stable order.
    /// An initially active one is only accepted while no other is active.
    pub fn register(&mut self, cell: GridPosition, active: bool)
        requires
            old(self).wf(),
            valid_cell(cell),
            active ==> !has_active(old(self)@),
        ensures
            final(self).wf(),
            final(self)@ == old(self)@.push(PointOfInterest { cell, active }),
    {
        self.pois.push(PointOfInterest { cell, active });
    }

    /// How many points of interest are registered.
    pub fn len(&self) -> (r: usize)
        ensures
            r == self@.len(),
    {
        self.pois.len()
    }

    /// The current target, or `None` while no point of interest is active.
    pub fn active(&self) -> (r: Option<PointOfInterest>)
        requires
            self.wf(),
        ensures
            r matches Some(p) ==> has_active(self@) && p == self@[active_index(self@)]
                && p.active,
            r is None ==> !has_active(self@),
    {
        let n = self.pois.len();
        let mut i: usize = 0;
        while i < n
            invariant
                self.wf(),
                n == self@.len(),
                0 <= i <= n,
                forall|k: int| 0 <= k < i ==> !(#[trigger] self@[k].active),
            decreases n - i,
        {
            if self.pois[i].active {
                proof {
                    assert(self@[i as int].active);
                    let w = active_index(self@);
                    assert(self@[w].active);
                }
                return Some(self.pois[i]);
            }
            i += 1;
        }
        None
    }

    /// Deactivate the active point of interest and activate the next one in
    /// registration order, wrapping around; a no-op while none is active.
    pub fn cycle_point_of_interest(&mut self)
        requires
            old(self).wf(),
        ensures
            final(self).wf(),
            final(self)@ == spec_cycle(old(self)@),
            final(self)@.len() == old(self)@.len(),
            forall|i: int|
                0 <= i < old(self)@.len() ==> final(self)@[i].cell == (#[trigger] old(
                    self,
                )@[i]).cell,
            !has_active(old(self)@) ==> final(self)@ == old(self)@,
            has_active(old(self)@) ==> {
                &&& has_active(final(self)@)
                &&& active_index(final(self)@) == next_index(
                    active_index(old(self)@),
                    old(self)@.len() as int,
                )
                &&& forall|i: int|
                    0 <= i < final(self)@.len() ==> ((#[trigger] final(self)@[i]).active <==> i
                        == next_index(active_index(old(self)@), old(self)@.len() as int))
            },
    {
        let ghost s0 = self.pois@;
        let n = self.pois.len();
        let mut i: usize = 0;
        while i < n
            invariant
                self.pois@ == s0,
                old(self).wf(),
                s0 == old(self).pois@,
                n == s0.len(),
                0 <= i <= n,
                forall|k: int| 0 <= k < i ==> !(#[trigger] s0[k].active),
            decreases n - i,
        {
            if self.pois[i].active {
                proof {
                    assert(s0[i as int].active);
                    assert(has_active(s0));
                    assert(active_index(s0) == i as int) by {
                        let w = active_index(s0);
                        assert(s0[w].active);
                    }
                }
                let mut off = self.pois[i];
                off.active = false;
                self.pois.set(i, off);
                let next: usize = (i + 1) % n;
                proof {
                    lemma_mod_division_less_than_divisor((i + 1) as int, n as int);
                }
                let mut on = self.pois[next];
                on.active = true;
                self.pois.set(next, on);
                proof {
                    let s2 = self.pois@;
                    let nx = next_index(i as int, n as int);
                    assert(next as int == nx);
                    assert(s2[nx].active);
                    assert(has_active(s2));
                    assert(active_index(s2) == nx) by {
                        let w = active_index(s2);
                        assert(s2[w].active);
                        if w != nx {
                            assert(s2[w] == s0[w]);
                        }
                    }
                }
                return ;
            }
            i += 1;
        }
        proof {
            assert(!has_active(s0));
        }
    }
}

/// Stepping the cyclic order `k` times from `i` lands on `(i + k) % n`.
proof fn lemma_cycle_times_add(i: int, n: int, k: nat)
    requires
        n >= 1,
        0 <= i < n,
    ensures
        cycle_times(i, n, k) == (i + k) % n,
    decreases k,
{
    if k == 0 {
        lemma_small_mod(i as nat, n as nat);
    } else {
        let j = next_index(i, n);
        lemma_mod_division_less_than_divisor(i + 1, n);
        lemma_cycle_times_add(j, n, (k - 1) as nat);
        assert(cycle_times(i, n, k) == ((i + 1) % n + (k - 1)) % n);
        lemma_add_mod_noop((i + 1) % n, k - 1, n);
        lemma_mod_twice(i + 1, n);
        lemma_add_mod_noop(i + 1, k - 1, n);
        assert(((i + 1) % n + (k - 1) % n) % n == (i + k) % n);
    }
}

/// `n` steps of the cyclic order from index `i` land back on `i`.
proof fn lemma_cycle_times_round(i: int, n: int)
    requires
        n >= 1,
        0 <= i < n,
    ensures
        cycle_times(i, n, n as nat) == i,
{
    lemma_cycle_times_add(i, n, n as nat);
    assert((i + n) % n == i) by {
        vstd::arithmetic::div_mod::lemma_mod_add_multiples_vanish(i, n);
        lemma_small_mod(i as nat, n as nat);
    }
}

/// The selector's contents after `k` cycles.
pub open spec fn cycle_n(s: Seq<PointOfInterest>, k: nat) -> Seq<PointOfInterest>
    decreases k,
{
    if k == 0 {
        s
    } else {
        cycle_n(spec_cycle(s), (k - 1) as nat)
    }
}

/// Exactly the entry at `i` is active.
pub open spec fn one_active_at(s: Seq<PointOfInterest>, i: int) -> bool {
    &&& 0 <= i < s.len()
    &&& forall|j: int| 0 <= j < s.len() ==> ((#[trigger] s[j].active) <==> j == i)
}

/// One cycle keeps every cell in place and moves the single active mark one
/// entry forward, wrapping around.
proof fn lemma_cycle_step(s: Seq<PointOfInterest>, i: int)
    requires
        one_active_at(s, i),
    ensures
        spec_cycle(s).len() == s.len(),
        forall|j: int| 0 <= j < s.len() ==> (#[trigger] spec_cycle(s)[j]).cell == s[j].cell,
        one_active_at(spec_cycle(s), next_index(i, s.len() as int)),
{
    assert(s[i].active);
    assert(has_active(s));
    assert(active_index(s) == i) by {
        let w = active_index(s);
        assert(s[w].active);
    }
    let n = s.len() as int;
    let j = next_index(i, n);
    lemma_mod_division_less_than_divisor(i + 1, n);
    let s2 = spec_cycle(s);
    assert(s2[j].active);
    assert forall|k: int| 0 <= k < n implies ((#[trigger] s2[k].active) <==> k == j) by {
        if k != j && k != i {
            assert(s2[k] == s[k]);
        }
    }
}

/// After `k` cycles the cells still stand where they were registered and the
/// active mark has moved `k` entries forward, wrapping around.
proof fn lemma_cycle_n_shifts(s: Seq<PointOfInterest>, i: int, k: nat)
    requires
        one_active_at(s, i),
    ensures
        cycle_n(s, k).len() == s.len(),
        forall|j: int| 0 <= j < s.len() ==> (#[trigger] cycle_n(s, k)[j]).cell == s[j].cell,
        one_active_at(cycle_n(s, k), cycle_times(i, s.len() as int, k)),
    decreases k,
{
    if k > 0 {
        lemma_cycle_step(s, i);
        lemma_cycle_n_shifts(spec_cycle(s), next_index(i, s.len() as int), (k - 1) as nat);
    }
}

/// Cycling as many times as there are registered points of interest returns
/// the selector to exactly its original state: the active target is the
/// original one again.
pub proof fn lemma_cycle_full_round(s: Seq<PointOfInterest>)
    requires
        has_active(s),
        forall|i: int, j: int|
            #![trigger s[i].active, s[j].active]
            0 <= i < s.len() && 0 <= j < s.len() && s[i].active && s[j].active ==> i == j,
    ensures
        cycle_n(s, s.len()) == s,
{
    let i = active_index(s);
    assert(s[i].active);
    let n = s.len() as int;
    lemma_cycle_n_shifts(s, i, s.len());
    lemma_cycle_times_round(i, n);
    let r = cycle_n(s, s.len());
    assert forall|j: int| 0 <= j < n implies r[j] == s[j] by {
        assert(r[j].cell == s[j].cell);
        assert(r[j].active <==> j == i);
        assert(s[j].active <==> j == i);
    }
    assert(r =~= s);
}

} // verus!
