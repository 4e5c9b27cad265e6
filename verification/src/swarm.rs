use vstd::prelude::*;

use crate::grid::{moved_by, GridPos};
use crate::trit::{clamp_trit, Trit};

verus! {

/// Weight of the current velocity, in halves (0.5).
pub const INERTIA_HALVES: i8 = 1;

/// Weight of the pull toward the particle's own best position, in halves (1.0).
pub const COGNITIVE_HALVES: i8 = 2;

/// Weight of the pull toward the swarm's best position, in halves (1.5).
pub const SOCIAL_HALVES: i8 = 3;

/// Twice the continuous velocity target of one coordinate:
/// `0.5 * vel + 1.0 * (best - pos) + 1.5 * (global - pos)`, doubled.
pub open spec fn twice_target(vel: int, pos: int, best: int, global: int) -> int {
    INERTIA_HALVES * vel + COGNITIVE_HALVES * (best - pos) + SOCIAL_HALVES * (global - pos)
}

/// Halves an integer, rounding toward zero (as a cast from a float to an
/// integer does).
pub open spec fn half_toward_zero(n: int) -> int {
    if n >= 0 {
        n / 2
    } else {
        -((-n) / 2)
    }
}

/// The new velocity of one coordinate: the continuous target, truncated
/// toward zero and clamped to a trit.
pub open spec fn axis_velocity(vel: Trit, pos: Trit, best: Trit, global: Trit) -> Trit {
    Trit::sign(half_toward_zero(twice_target(vel.value(), pos.value(), best.value(), global.value())))
}

/// The new velocity of a particle.
pub open spec fn next_velocity(pos: GridPos, vel: GridPos, best: GridPos, global: GridPos) -> GridPos {
    GridPos {
        x: axis_velocity(vel.x, pos.x, best.x, global.x),
        y: axis_velocity(vel.y, pos.y, best.y, global.y),
    }
}

/// The velocity of one coordinate after a step of ternary particle swarm
/// optimisation.
pub fn axis_step(vel: Trit, pos: Trit, best: Trit, global: Trit) -> (r: Trit)
    ensures
        r == axis_velocity(vel, pos, best, global),
{
    let p = pos.to_i8();
    let twice: i8 = INERTIA_HALVES * vel.to_i8() + COGNITIVE_HALVES * (best.to_i8() - p) + SOCIAL_HALVES * (
    global.to_i8() - p);
    let target: i8 = if twice >= 0 {
        twice / 2
    } else {
        -((-twice) / 2)
    };
    let v = clamp_trit(target);
    match Trit::from_i8(v) {
        Some(t) => t,
        None => Trit::Zero,
    }
}

/// One step of ternary particle swarm optimisation for one particle:
/// returns the new velocity and the new position.
///
/// The velocity moves toward the particle's best and the swarm's best
/// positions (`0.5 * velocity + 1.0 * (best - pos) + 1.5 * (global - pos)`,
/// truncated toward zero and clamped to a trit); the particle then moves by
/// the new velocity, clamped to the grid.
pub fn particle_motion(pos: GridPos, vel: GridPos, best: GridPos, global: GridPos) -> (r: (
    GridPos,
    GridPos,
))
    ensures
        r.0 == next_velocity(pos, vel, best, global),
        r.1 == moved_by(pos, r.0),
{
    let vx = axis_step(vel.x, pos.x, best.x, global.x);
    let vy = axis_step(vel.y, pos.y, best.y, global.y);
    let new_vel = GridPos::new(vx, vy);
    let new_pos = pos.moved(new_vel);
    (new_vel, new_pos)
}

/// A particle at rest on its own best position, which is also the swarm's
/// best, stays at rest where it is.
pub proof fn lemma_motion_rest_at_best(pos: GridPos)
    ensures
        next_velocity(pos, GridPos { x: Trit::Zero, y: Trit::Zero }, pos, pos) == (GridPos {
            x: Trit::Zero,
            y: Trit::Zero,
        }),
        moved_by(pos, GridPos { x: Trit::Zero, y: Trit::Zero }) == pos,
{
}

/// A particle at rest on its own best position takes, on each coordinate,
/// one step straight toward the swarm's best position.
pub proof fn lemma_motion_toward_global(pos: GridPos, global: GridPos)
    ensures
        next_velocity(pos, GridPos { x: Trit::Zero, y: Trit::Zero }, pos, global) == (GridPos {
            x: Trit::sign(global.x.value() - pos.x.value()),
            y: Trit::sign(global.y.value() - pos.y.value()),
        }),
{
}

/// With the swarm's best at the particle's position and the particle at
/// rest, the particle steps toward its own best position: each coordinate of
/// the new velocity is the sign of (own best - position).
pub proof fn lemma_motion_toward_own_best(pos: GridPos, best: GridPos)
    ensures
        next_velocity(pos, GridPos { x: Trit::Zero, y: Trit::Zero }, best, pos) == (GridPos {
            x: Trit::sign(best.x.value() - pos.x.value()),
            y: Trit::sign(best.y.value() - pos.y.value()),
        }),
{
}

/// The velocity rule with its weights written out: the new velocity of a
/// coordinate is `Pos` exactly when `0.5 * vel + 1.0 * (best - pos) + 1.5 *
/// (global - pos)` is at least 1, `Neg` exactly when it is at most -1, and
/// `Zero` otherwise (the target is truncated toward zero, then clamped).
pub proof fn lemma_axis_velocity_weights(vel: Trit, pos: Trit, best: Trit, global: Trit)
    ensures
        twice_target(vel.value(), pos.value(), best.value(), global.value()) == vel.value() + 2 * (
        best.value() - pos.value()) + 3 * (global.value() - pos.value()),
        axis_velocity(vel, pos, best, global) == Trit::Pos <==> vel.value() + 2 * (best.value()
            - pos.value()) + 3 * (global.value() - pos.value()) >= 2,
        axis_velocity(vel, pos, best, global) == Trit::Neg <==> vel.value() + 2 * (best.value()
            - pos.value()) + 3 * (global.value() - pos.value()) <= -2,
{
}

/// The velocity rule per coordinate, weights written out: the new `x`
/// velocity is `Pos` exactly when `0.5 * vel.x + 1.0 * (best.x - pos.x) + 1.5
/// * (global.x - pos.x)` is at least 1, `Neg` exactly when it is at most -1,
/// and `Zero` otherwise; likewise for `y` with the `y` coordinates.
pub proof fn lemma_next_velocity_weights(pos: GridPos, vel: GridPos, best: GridPos, global: GridPos)
    ensures
        next_velocity(pos, vel, best, global).x == Trit::Pos <==> vel.x.value() + 2 * (best.x.value()
            - pos.x.value()) + 3 * (global.x.value() - pos.x.value()) >= 2,
        next_velocity(pos, vel, best, global).x == Trit::Neg <==> vel.x.value() + 2 * (best.x.value()
            - pos.x.value()) + 3 * (global.x.value() - pos.x.value()) <= -2,
        next_velocity(pos, vel, best, global).y == Trit::Pos <==> vel.y.value() + 2 * (best.y.value()
            - pos.y.value()) + 3 * (global.y.value() - pos.y.value()) >= 2,
        next_velocity(pos, vel, best, global).y == Trit::Neg <==> vel.y.value() + 2 * (best.y.value()
            - pos.y.value()) + 3 * (global.y.value() - pos.y.value()) <= -2,
{
    lemma_axis_velocity_weights(vel.x, pos.x, best.x, global.x);
    lemma_axis_velocity_weights(vel.y, pos.y, best.y, global.y);
}

} // verus!
