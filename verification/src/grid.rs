use vstd::prelude::*;

use crate::trit::{clamp, clamp_trit, Trit};

verus! {

/// A 2D position on a ternary grid.
#[derive(Clone, Copy, Debug, PartialEq, Eq, Structural)]
pub struct GridPos {
    pub x: Trit,
    pub y: Trit,
}

/// The trit with index `k` in the order Neg, Zero, Pos.
pub open spec fn trit_by_index(k: int) -> Trit {
    if k == 0 {
        Trit::Neg
    } else if k == 1 {
        Trit::Zero
    } else {
        Trit::Pos
    }
}

/// The nine grid positions, `x` major: (Neg,Neg), (Neg,Zero), (Neg,Pos), (Zero,Neg), ...
pub open spec fn spec_all_positions() -> Seq<GridPos> {
    Seq::new(9, |i: int| GridPos { x: trit_by_index(i / 3), y: trit_by_index(i % 3) })
}

pub open spec fn abs(v: int) -> int {
    if v < 0 {
        -v
    } else {
        v
    }
}

/// Manhattan distance between two grid positions.
pub open spec fn spec_manhattan(a: GridPos, b: GridPos) -> int {
    abs(a.x.value() - b.x.value()) + abs(a.y.value() - b.y.value())
}

/// The position reached from `pos` by one step of velocity `vel`, each
/// coordinate clamped to the grid.
pub open spec fn moved_by(pos: GridPos, vel: GridPos) -> GridPos {
    GridPos {
        x: Trit::sign(clamp(pos.x.value() + vel.x.value())),
        y: Trit::sign(clamp(pos.y.value() + vel.y.value())),
    }
}

impl GridPos {
    pub fn new(x: Trit, y: Trit) -> (r: Self)
        ensures
            r == (GridPos { x, y }),
    {
        GridPos { x, y }
    }

    /// All 9 positions on a 3x3 ternary grid.
    pub fn all_positions() -> (r: Vec<GridPos>)
        ensures
            r@ == spec_all_positions(),
    {
        let trits = [Trit::Neg, Trit::Zero, Trit::Pos];
        let mut positions: Vec<GridPos> = Vec::new();
        let mut i: usize = 0;
        while i < 3
            invariant
                i <= 3,
                trits@ == seq![Trit::Neg, Trit::Zero, Trit::Pos],
                positions@.len() == 3 * i,
                forall|k: int| 0 <= k < 3 * i ==> #[trigger] positions@[k] == spec_all_positions()[k],
            decreases 3 - i,
        {
            let mut j: usize = 0;
            while j < 3
                invariant
                    i < 3,
                    j <= 3,
                    trits@ == seq![Trit::Neg, Trit::Zero, Trit::Pos],
                    positions@.len() == 3 * i + j,
                    forall|k: int| 0 <= k < 3 * i + j ==> #[trigger] positions@[k] == spec_all_positions()[k],
                decreases 3 - j,
            {
                let k: usize = 3 * i + j;
                assert(k as int / 3 == i && k as int % 3 == j) by (nonlinear_arith)
                    requires
                        k == 3 * i + j,
                        j < 3,
                ;
                positions.push(GridPos::new(trits[i], trits[j]));
                j += 1;
            }
            i += 1;
        }
        positions
    }

    /// Moves by one step of velocity `vel`, clamping each coordinate to the grid.
    pub fn moved(self, vel: GridPos) -> (r: GridPos)
        ensures
            r == moved_by(self, vel),
    {
        let nx = clamp_trit(self.x.to_i8() + vel.x.to_i8());
        let ny = clamp_trit(self.y.to_i8() + vel.y.to_i8());
        match (Trit::from_i8(nx), Trit::from_i8(ny)) {
            (Some(xt), Some(yt)) => GridPos::new(xt, yt),
            _ => self,
        }
    }

    pub fn manhattan_distance(self, other: GridPos) -> (r: i8)
        ensures
            r == spec_manhattan(self, other),
    {
        let dx = self.x.to_i8() - other.x.to_i8();
        let dy = self.y.to_i8() - other.y.to_i8();
        let ax: i8 = if dx < 0 { -dx } else { dx };
        let ay: i8 = if dy < 0 { -dy } else { dy };
        ax + ay
    }
}

/// Standing still leaves a position unchanged.
pub proof fn lemma_moved_by_rest(pos: GridPos)
    ensures
        moved_by(pos, GridPos { x: Trit::Zero, y: Trit::Zero }) == pos,
{
}

/// The index of a position in `spec_all_positions`.
pub open spec fn position_index(p: GridPos) -> int {
    3 * (p.x.value() + 1) + (p.y.value() + 1)
}

/// Every grid position occurs in `all_positions` exactly once, at
/// `position_index`.
pub proof fn lemma_all_positions_exactly_once(p: GridPos)
    ensures
        spec_all_positions().len() == 9,
        0 <= position_index(p) < 9,
        spec_all_positions()[position_index(p)] == p,
        forall|i: int| 0 <= i < 9 && #[trigger] spec_all_positions()[i] == p ==> i == position_index(p),
{
    assert forall|i: int| 0 <= i < 9 && #[trigger] spec_all_positions()[i] == p implies i == position_index(
        p,
    ) by {
        assert(0 <= i < 9);
        assert(i == 0 || i == 1 || i == 2 || i == 3 || i == 4 || i == 5 || i == 6 || i == 7 || i == 8);
    }
}

/// Manhattan distance is symmetric, zero exactly between equal positions,
/// and at most 4.
pub proof fn lemma_manhattan_metric(a: GridPos, b: GridPos)
    ensures
        spec_manhattan(a, b) == spec_manhattan(b, a),
        spec_manhattan(a, b) == 0 <==> a == b,
        0 <= spec_manhattan(a, b) <= 4,
{
}

/// Manhattan distance adds up along the axes: going from `a` to `b` costs the
/// horizontal distance, `|a.x - b.x|`, plus the vertical distance.
pub proof fn lemma_manhattan_by_axes(a: GridPos, b: GridPos)
    ensures
        spec_manhattan(a, GridPos { x: b.x, y: a.y }) == if a.x.value() >= b.x.value() {
            a.x.value() - b.x.value()
        } else {
            b.x.value() - a.x.value()
        },
        spec_manhattan(GridPos { x: b.x, y: a.y }, b) == if a.y.value() >= b.y.value() {
            a.y.value() - b.y.value()
        } else {
            b.y.value() - a.y.value()
        },
        spec_manhattan(a, b) == spec_manhattan(a, GridPos { x: b.x, y: a.y }) + spec_manhattan(
            GridPos { x: b.x, y: a.y },
            b,
        ),
{
}

/// The positions come in order, `x` first, then `y`: each position is
/// strictly after the previous one in that order.
pub proof fn lemma_all_positions_ordered()
    ensures
        forall|i: int, j: int|
            0 <= i < j < 9 ==> {
                let a = #[trigger] spec_all_positions()[i];
                let b = #[trigger] spec_all_positions()[j];
                a.x.value() < b.x.value() || (a.x.value() == b.x.value() && a.y.value() < b.y.value())
            },
{
    assert forall|i: int, j: int| 0 <= i < j < 9 implies {
        let a = #[trigger] spec_all_positions()[i];
        let b = #[trigger] spec_all_positions()[j];
        a.x.value() < b.x.value() || (a.x.value() == b.x.value() && a.y.value() < b.y.value())
    } by {
        assert(i == 0 || i == 1 || i == 2 || i == 3 || i == 4 || i == 5 || i == 6 || i == 7);
        assert(j == 1 || j == 2 || j == 3 || j == 4 || j == 5 || j == 6 || j == 7 || j == 8);
    }
}

/// One step moves each coordinate by the velocity, stopping at the edge of
/// the grid: the new coordinate is 1 when the sum is at least 1, -1 when it
/// is at most -1, and 0 otherwise.
pub proof fn lemma_moved_by_steps(pos: GridPos, vel: GridPos)
    ensures
        moved_by(pos, vel).x.value() == if pos.x.value() + vel.x.value() >= 1 {
            1
        } else if pos.x.value() + vel.x.value() <= -1 {
            -1
        } else {
            0
        },
        moved_by(pos, vel).y.value() == if pos.y.value() + vel.y.value() >= 1 {
            1
        } else if pos.y.value() + vel.y.value() <= -1 {
            -1
        } else {
            0
        },
{
}

/// Manhattan distance obeys the triangle inequality.
pub proof fn lemma_manhattan_triangle(a: GridPos, b: GridPos, c: GridPos)
    ensures
        spec_manhattan(a, c) <= spec_manhattan(a, b) + spec_manhattan(b, c),
{
}

} // verus!
