use vstd::prelude::*;

use crate::grid::{moved_by, GridPos};
use crate::trit::Trit;

verus! {

/// Ternary alignment rule for flocking.
#[derive(Clone, Copy, Debug, PartialEq, Eq, Structural)]
pub enum AlignmentRule {
    /// Align with majority.
    Align,
    /// Oppose majority (scatter).
    Scatter,
    /// Stay put.
    Hold,
}

impl AlignmentRule {
    /// The rule that a trit stands for: Pos aligns, Neg scatters, Zero holds.
    pub open spec fn of_trit(t: Trit) -> AlignmentRule {
        match t {
            Trit::Pos => AlignmentRule::Align,
            Trit::Neg => AlignmentRule::Scatter,
            Trit::Zero => AlignmentRule::Hold,
        }
    }

    /// The trit that stands for a rule.
    pub open spec fn trit(self) -> Trit {
        match self {
            AlignmentRule::Align => Trit::Pos,
            AlignmentRule::Scatter => Trit::Neg,
            AlignmentRule::Hold => Trit::Zero,
        }
    }

    pub fn from_trit(t: Trit) -> (r: Self)
        ensures
            r == AlignmentRule::of_trit(t),
    {
        match t {
            Trit::Pos => AlignmentRule::Align,
            Trit::Neg => AlignmentRule::Scatter,
            Trit::Zero => AlignmentRule::Hold,
        }
    }

    pub fn to_trit(self) -> (r: Trit)
        ensures
            r == self.trit(),
    {
        match self {
            AlignmentRule::Align => Trit::Pos,
            AlignmentRule::Scatter => Trit::Neg,
            AlignmentRule::Hold => Trit::Zero,
        }
    }
}

/// Pos aligns, Neg scatters, Zero holds.
pub proof fn lemma_rule_of_each_trit()
    ensures
        AlignmentRule::of_trit(Trit::Pos) == AlignmentRule::Align,
        AlignmentRule::of_trit(Trit::Neg) == AlignmentRule::Scatter,
        AlignmentRule::of_trit(Trit::Zero) == AlignmentRule::Hold,
{
}

/// Rules and trits correspond one to one: each conversion undoes the other.
pub proof fn lemma_rule_trit_round_trip(t: Trit, r: AlignmentRule)
    ensures
        AlignmentRule::of_trit(t).trit() == t,
        AlignmentRule::of_trit(r.trit()) == r,
{
}

/// A boid (bird-oid) for ternary flocking.
#[derive(Clone, Debug)]
pub struct Boid {
    pub pos: GridPos,
    pub vel: GridPos,
    pub rule: AlignmentRule,
}

impl Boid {
    pub fn new(pos: GridPos, rule: AlignmentRule) -> (r: Self)
        ensures
            r.pos == pos,
            r.vel == (GridPos { x: Trit::Zero, y: Trit::Zero }),
            r.rule == rule,
    {
        Boid { pos, vel: GridPos::new(Trit::Zero, Trit::Zero), rule }
    }
}

/// The horizontal (`horizontal`) or vertical velocity of a boid, as an integer.
pub open spec fn vel_component(b: Boid, horizontal: bool) -> int {
    if horizontal {
        b.vel.x.value()
    } else {
        b.vel.y.value()
    }
}

/// Sum of one velocity component over the first `k` boids, leaving out the
/// boid at index `skip`.
pub open spec fn neighbour_sum(boids: Seq<Boid>, skip: int, k: int, horizontal: bool) -> int
    decreases k,
{
    if k <= 0 {
        0
    } else {
        neighbour_sum(boids, skip, k - 1, horizontal) + if k - 1 == skip {
            0
        } else {
            vel_component(boids[k - 1], horizontal)
        }
    }
}

/// Whether `v` fits an `i8`.
pub open spec fn fits_i8(v: int) -> bool {
    i8::MIN <= v <= i8::MAX
}

/// Every running sum of the velocities of the neighbours of boid `skip`
/// fits the 8-bit accumulators of `majority_direction`, which overflow
/// otherwise.
pub open spec fn sums_fit_for(boids: Seq<Boid>, skip: int) -> bool {
    forall|k: int, h: bool| 0 <= k <= boids.len() ==> fits_i8(#[trigger] neighbour_sum(boids, skip, k, h))
}

/// The running sums fit for the neighbourhood of every boid.
pub open spec fn sums_fit(boids: Seq<Boid>) -> bool {
    forall|skip: int| 0 <= skip < boids.len() ==> #[trigger] sums_fit_for(boids, skip)
}

/// The majority direction of the neighbours of boid `i`: the sign of the
/// sum of the other boids' velocities, per coordinate.
pub open spec fn spec_majority(boids: Seq<Boid>, i: int) -> (Trit, Trit) {
    (
        Trit::sign(neighbour_sum(boids, i, boids.len() as int, true)),
        Trit::sign(neighbour_sum(boids, i, boids.len() as int, false)),
    )
}

/// The velocity of boid `i` after a step: the majority direction for
/// `Align`, its opposite for `Scatter`, the current velocity for `Hold`.
pub open spec fn spec_new_velocity(boids: Seq<Boid>, i: int) -> GridPos {
    let (mx, my) = spec_majority(boids, i);
    match boids[i].rule {
        AlignmentRule::Align => GridPos { x: mx, y: my },
        AlignmentRule::Scatter => GridPos { x: mx.opposite(), y: my.opposite() },
        AlignmentRule::Hold => boids[i].vel,
    }
}

/// Boid `i` after a step of the flock.
pub open spec fn spec_stepped(boids: Seq<Boid>, i: int) -> Boid {
    Boid {
        pos: moved_by(boids[i].pos, spec_new_velocity(boids, i)),
        vel: spec_new_velocity(boids, i),
        rule: boids[i].rule,
    }
}

/// Whether all boids stand on the same position.
pub open spec fn all_together(boids: Seq<Boid>) -> bool {
    forall|i: int, j: int| 0 <= i < boids.len() && 0 <= j < boids.len() ==> #[trigger] boids[i].pos == #[trigger] boids[j].pos
}

/// Ternary flocking system.
pub struct Flock {
    pub boids: Vec<Boid>,
}

impl Flock {
    pub fn new(boids: Vec<Boid>) -> (r: Self)
        ensures
            r.boids@ == boids@,
    {
        Flock { boids }
    }

    /// Compute majority direction of neighbors.
    pub fn majority_direction(&self, index: usize) -> (r: (Trit, Trit))
        requires
            index < self.boids@.len(),
            sums_fit_for(self.boids@, index as int),
        ensures
            r == spec_majority(self.boids@, index as int),
    {
        let mut sx: i8 = 0;
        let mut sy: i8 = 0;
        let mut i: usize = 0;
        while i < self.boids.len()
            invariant
                i <= self.boids@.len(),
                index < self.boids@.len(),
                sums_fit_for(self.boids@, index as int),
                sx == neighbour_sum(self.boids@, index as int, i as int, true),
                sy == neighbour_sum(self.boids@, index as int, i as int, false),
            decreases self.boids.len() - i,
        {
            if i != index {
                let other = &self.boids[i];
                proof {
                    assert(fits_i8(neighbour_sum(self.boids@, index as int, i + 1, true)));
                    assert(fits_i8(neighbour_sum(self.boids@, index as int, i + 1, false)));
                }
                sx += other.vel.x.to_i8();
                sy += other.vel.y.to_i8();
            }
            i += 1;
        }
        (sign_trit(sx), sign_trit(sy))
    }

    /// Update one step of flocking.
    pub fn step(&mut self)
        requires
            sums_fit(old(self).boids@),
        ensures
            final(self).boids@.len() == old(self).boids@.len(),
            forall|i: int|
                0 <= i < old(self).boids@.len() ==> #[trigger] final(self).boids@[i] == spec_stepped(
                    old(self).boids@,
                    i,
                ),
            forall|i: int|
                0 <= i < old(self).boids@.len() ==> {
                    &&& #[trigger] final(self).boids@[i].vel == spec_new_velocity(old(self).boids@, i)
                    &&& final(self).boids@[i].rule == old(self).boids@[i].rule
                    &&& final(self).boids@[i].pos == moved_by(old(self).boids@[i].pos, final(self).boids@[i].vel)
                },
    {
        let mut new_vels: Vec<GridPos> = Vec::new();
        let mut i: usize = 0;
        while i < self.boids.len()
            invariant
                i <= self.boids@.len(),
                sums_fit(self.boids@),
                new_vels@.len() == i,
                forall|k: int| 0 <= k < i ==> #[trigger] new_vels@[k] == spec_new_velocity(self.boids@, k),
            decreases self.boids.len() - i,
        {
            assert(sums_fit_for(self.boids@, i as int));
            let (mx, my) = self.majority_direction(i);
            let boid = &self.boids[i];
            let v = match boid.rule {
                AlignmentRule::Align => GridPos::new(mx, my),
                AlignmentRule::Scatter => GridPos::new(mx.ternary_not(), my.ternary_not()),
                AlignmentRule::Hold => boid.vel,
            };
            new_vels.push(v);
            i += 1;
        }
        let ghost before = self.boids@;
        let mut j: usize = 0;
        while j < self.boids.len()
            invariant
                j <= self.boids@.len(),
                self.boids@.len() == before.len(),
                new_vels@.len() == before.len(),
                forall|k: int| 0 <= k < before.len() ==> #[trigger] new_vels@[k] == spec_new_velocity(before, k),
                forall|k: int| 0 <= k < j ==> #[trigger] self.boids@[k] == spec_stepped(before, k),
                forall|k: int| j <= k < before.len() ==> #[trigger] self.boids@[k] == before[k],
            decreases self.boids.len() - j,
        {
            let vel = new_vels[j];
            let pos = self.boids[j].pos;
            let rule = self.boids[j].rule;
            let moved = pos.moved(vel);
            self.boids.set(j, Boid { pos: moved, vel, rule });
            j += 1;
        }
    }

    /// Check if flock has converged (all same position).
    pub fn is_converged(&self) -> (r: bool)
        ensures
            r == all_together(self.boids@),
            r <==> forall|i: int, j: int|
                0 <= i < self.boids@.len() && 0 <= j < self.boids@.len() ==> #[trigger] self.boids@[i].pos.x
                    == #[trigger] self.boids@[j].pos.x && self.boids@[i].pos.y == self.boids@[j].pos.y,
    {
        if self.boids.len() == 0 {
            return true;
        }
        let first = self.boids[0].pos;
        let mut i: usize = 0;
        while i < self.boids.len()
            invariant
                0 < self.boids@.len(),
                first == self.boids@[0].pos,
                i <= self.boids@.len(),
                forall|k: int| 0 <= k < i ==> #[trigger] self.boids@[k].pos == first,
            decreases self.boids.len() - i,
        {
            if self.boids[i].pos != first {
                assert(!(self.boids@[i as int].pos.x == self.boids@[0].pos.x && self.boids@[i as int].pos.y
                    == self.boids@[0].pos.y));
                return false;
            }
            i += 1;
        }
        true
    }
}

/// The sign of a sum as a trit.
fn sign_trit(s: i8) -> (r: Trit)
    ensures
        r == Trit::sign(s as int),
{
    let sig: i8 = if s > 0 {
        1
    } else if s < 0 {
        -1
    } else {
        0
    };
    match Trit::from_i8(sig) {
        Some(t) => t,
        None => Trit::Zero,
    }
}

/// Sum of one velocity component over the first `k` boids.
pub open spec fn velocity_total(boids: Seq<Boid>, k: int, horizontal: bool) -> int
    decreases k,
{
    if k <= 0 {
        0
    } else {
        velocity_total(boids, k - 1, horizontal) + vel_component(boids[k - 1], horizontal)
    }
}

/// Over a prefix, the neighbour sum of a boid is the total of the prefix,
/// less the boid's own velocity when it lies in the prefix.
proof fn lemma_neighbour_sum_prefix(boids: Seq<Boid>, skip: int, k: int, h: bool)
    requires
        0 <= skip < boids.len(),
        0 <= k <= boids.len(),
    ensures
        neighbour_sum(boids, skip, k, h) == velocity_total(boids, k, h) - if skip < k {
            vel_component(boids[skip], h)
        } else {
            0
        },
    decreases k,
{
    if k > 0 {
        lemma_neighbour_sum_prefix(boids, skip, k - 1, h);
    }
}

/// Every boid other than `i` counts toward its neighbours' velocity: the
/// neighbour sum of boid `i` is the sum of all velocities less its own.
pub proof fn lemma_neighbour_sum_is_total_less_own(boids: Seq<Boid>, i: int, h: bool)
    requires
        0 <= i < boids.len(),
    ensures
        neighbour_sum(boids, i, boids.len() as int, h) == velocity_total(boids, boids.len() as int, h)
            - vel_component(boids[i], h),
{
    lemma_neighbour_sum_prefix(boids, i, boids.len() as int, h);
}

/// The velocity a boid takes, written out: an aligning boid takes the sign of
/// the sum of the other boids' velocities, a scattering boid the opposite
/// sign, and a holding boid keeps its velocity.
pub proof fn lemma_new_velocity_by_totals(boids: Seq<Boid>, i: int)
    requires
        0 <= i < boids.len(),
    ensures
        boids[i].rule == AlignmentRule::Align ==> spec_new_velocity(boids, i) == (GridPos {
            x: Trit::sign(velocity_total(boids, boids.len() as int, true) - boids[i].vel.x.value()),
            y: Trit::sign(velocity_total(boids, boids.len() as int, false) - boids[i].vel.y.value()),
        }),
        boids[i].rule == AlignmentRule::Scatter ==> spec_new_velocity(boids, i) == (GridPos {
            x: Trit::sign(boids[i].vel.x.value() - velocity_total(boids, boids.len() as int, true)),
            y: Trit::sign(boids[i].vel.y.value() - velocity_total(boids, boids.len() as int, false)),
        }),
        boids[i].rule == AlignmentRule::Hold ==> spec_new_velocity(boids, i) == boids[i].vel,
{
    lemma_neighbour_sum_is_total_less_own(boids, i, true);
    lemma_neighbour_sum_is_total_less_own(boids, i, false);
}

/// With every boid at rest, each neighbour sum is zero.
pub proof fn lemma_resting_sums(boids: Seq<Boid>, skip: int, k: int, h: bool)
    requires
        forall|i: int| 0 <= i < boids.len() ==> #[trigger] boids[i].vel == (GridPos { x: Trit::Zero, y: Trit::Zero }),
        k <= boids.len(),
    ensures
        neighbour_sum(boids, skip, k, h) == 0,
    decreases k,
{
    if k > 0 {
        lemma_resting_sums(boids, skip, k - 1, h);
        assert(boids[k - 1].vel == (GridPos { x: Trit::Zero, y: Trit::Zero }));
    }
}

/// A flock at rest stays at rest: when no boid moves, a step changes no
/// boid, whatever its rule.
pub proof fn lemma_rest_is_fixed_point(boids: Seq<Boid>)
    requires
        forall|i: int| 0 <= i < boids.len() ==> #[trigger] boids[i].vel == (GridPos { x: Trit::Zero, y: Trit::Zero }),
    ensures
        forall|i: int| 0 <= i < boids.len() ==> #[trigger] spec_stepped(boids, i) == boids[i],
{
    assert forall|i: int| 0 <= i < boids.len() implies #[trigger] spec_stepped(boids, i) == boids[i] by {
        lemma_resting_sums(boids, i, boids.len() as int, true);
        lemma_resting_sums(boids, i, boids.len() as int, false);
        assert(boids[i].vel == (GridPos { x: Trit::Zero, y: Trit::Zero }));
    }
}

/// Scattering is aligning reversed: for the same neighbours, a boid that
/// scatters takes the opposite of the velocity of a boid that aligns.
pub proof fn lemma_scatter_opposes_align(boids: Seq<Boid>, i: int)
    requires
        0 <= i < boids.len(),
    ensures
        boids[i].rule == AlignmentRule::Scatter ==> spec_new_velocity(boids, i) == (GridPos {
            x: spec_majority(boids, i).0.opposite(),
            y: spec_majority(boids, i).1.opposite(),
        }),
        boids[i].rule == AlignmentRule::Align ==> spec_new_velocity(boids, i) == (GridPos {
            x: spec_majority(boids, i).0,
            y: spec_majority(boids, i).1,
        }),
        boids[i].rule == AlignmentRule::Hold ==> spec_new_velocity(boids, i) == boids[i].vel,
{
}

} // verus!
