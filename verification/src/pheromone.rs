use vstd::prelude::*;

use crate::trit::Trit;

verus! {

/// Number of positions on the ternary grid, and so the number of rows and
/// columns of the trail matrix.
pub const GRID_CELLS: usize = 9;

/// Whether `v` is a 9 x 9 matrix.
pub open spec fn is_square_grid(v: Seq<Seq<Trit>>) -> bool {
    &&& v.len() == 9
    &&& forall|i: int| 0 <= i < 9 ==> #[trigger] v[i].len() == 9
}

/// The trail from `from` to `to`; `Zero` outside the grid.
pub open spec fn trail_of(v: Seq<Seq<Trit>>, from: int, to: int) -> Trit {
    if 0 <= from < 9 && 0 <= to < 9 {
        v[from][to]
    } else {
        Trit::Zero
    }
}

/// The matrix with the trail from `from` to `to` set to `p`; unchanged when
/// either index lies outside the grid.
pub open spec fn with_trail(v: Seq<Seq<Trit>>, from: int, to: int, p: Trit) -> Seq<Seq<Trit>> {
    if 0 <= from < 9 && 0 <= to < 9 {
        v.update(from, v[from].update(to, p))
    } else {
        v
    }
}

/// The 9 x 9 matrix of neutral trails.
pub open spec fn neutral_grid() -> Seq<Seq<Trit>> {
    Seq::new(9, |i: int| Seq::new(9, |j: int| Trit::Zero))
}

/// Whether `to` directly follows `from` somewhere in `path`.
pub open spec fn is_path_edge(path: Seq<usize>, from: int, to: int) -> bool {
    exists|k: int| 0 <= k && k + 1 < path.len() && path[k] == from && #[trigger] path[k + 1] == to
}

/// The matrix with every edge of `path` set to `p`.
pub open spec fn with_path(v: Seq<Seq<Trit>>, path: Seq<usize>, p: Trit) -> Seq<Seq<Trit>> {
    Seq::new(
        v.len(),
        |i: int|
            Seq::new(
                v[i].len(),
                |j: int|
                    if is_path_edge(path, i, j) {
                        p
                    } else {
                        v[i][j]
                    },
            ),
    )
}

/// Pheromone trails on a ternary grid: +1 attract, 0 neutral, -1 repel.
#[derive(Clone, Debug)]
pub struct PheromoneGrid {
    /// (9x9) edge pheromone values between grid positions.
    trails: Vec<Vec<Trit>>,
    size: usize,
}

impl View for PheromoneGrid {
    type V = Seq<Seq<Trit>>;

    closed spec fn view(&self) -> Seq<Seq<Trit>> {
        Seq::new(self.trails@.len(), |i: int| self.trails@[i]@)
    }
}

impl PheromoneGrid {
    /// The grid holds a 9 x 9 matrix of trails.
    pub closed spec fn wf(&self) -> bool {
        &&& self.size == GRID_CELLS
        &&& self.trails@.len() == GRID_CELLS
        &&& forall|i: int| 0 <= i < GRID_CELLS ==> #[trigger] self.trails@[i]@.len() == GRID_CELLS
    }

    /// A well-formed grid is a square 9 x 9 matrix.
    pub proof fn lemma_wf_square(&self)
        requires
            self.wf(),
        ensures
            is_square_grid(self@),
    {
    }

    pub fn new() -> (r: Self)
        ensures
            r.wf(),
            r@ =~~= neutral_grid(),
            forall|a: int, b: int| 0 <= a < 9 && 0 <= b < 9 ==> #[trigger] r@[a][b] == Trit::Zero,
    {
        let size = GRID_CELLS;
        let mut trails: Vec<Vec<Trit>> = Vec::new();
        let mut i: usize = 0;
        while i < size
            invariant
                size == GRID_CELLS,
                i <= size,
                trails@.len() == i,
                forall|a: int| 0 <= a < i ==> #[trigger] trails@[a]@ =~= Seq::new(9, |j: int| Trit::Zero),
            decreases size - i,
        {
            let mut row: Vec<Trit> = Vec::new();
            let mut j: usize = 0;
            while j < size
                invariant
                    size == GRID_CELLS,
                    j <= size,
                    row@ =~= Seq::new(j as nat, |b: int| Trit::Zero),
                decreases size - j,
            {
                row.push(Trit::Zero);
                j += 1;
            }
            trails.push(row);
            i += 1;
        }
        PheromoneGrid { trails, size }
    }

    pub fn set_trail(&mut self, from: usize, to: usize, pheromone: Trit)
        requires
            old(self).wf(),
        ensures
            final(self).wf(),
            final(self)@ =~~= with_trail(old(self)@, from as int, to as int, pheromone),
            forall|a: int, b: int|
                0 <= a < 9 && 0 <= b < 9 ==> #[trigger] final(self)@[a][b] == if a == from && b == to {
                    pheromone
                } else {
                    old(self)@[a][b]
                },
    {
        if from < self.size && to < self.size {
            let mut row = Vec::new();
            std::mem::swap(&mut row, &mut self.trails[from]);
            row.set(to, pheromone);
            self.trails.set(from, row);
        }
    }

    pub fn get_trail(&self, from: usize, to: usize) -> (r: Trit)
        requires
            self.wf(),
        ensures
            r == trail_of(self@, from as int, to as int),
            r == if from < 9 && to < 9 {
                self@[from as int][to as int]
            } else {
                Trit::Zero
            },
    {
        if from < self.size && to < self.size {
            self.trails[from][to]
        } else {
            Trit::Zero
        }
    }

    /// Evaporate all trails toward Zero.
    pub fn evaporate(&mut self)
        requires
            old(self).wf(),
        ensures
            final(self).wf(),
            final(self)@ =~~= neutral_grid(),
            forall|a: int, b: int| 0 <= a < 9 && 0 <= b < 9 ==> #[trigger] final(self)@[a][b] == Trit::Zero,
    {
        // In ternary, evaporation means all trails become Zero
        let mut i: usize = 0;
        while i < self.trails.len()
            invariant
                self.wf(),
                i <= GRID_CELLS,
                forall|a: int| 0 <= a < i ==> #[trigger] self.trails@[a]@ =~= Seq::new(9, |j: int| Trit::Zero),
            decreases GRID_CELLS - i,
        {
            let mut row = Vec::new();
            std::mem::swap(&mut row, &mut self.trails[i]);
            let mut j: usize = 0;
            while j < row.len()
                invariant
                    row@.len() == GRID_CELLS,
                    j <= GRID_CELLS,
                    forall|b: int| 0 <= b < j ==> #[trigger] row@[b] == Trit::Zero,
                decreases GRID_CELLS - j,
            {
                row.set(j, Trit::Zero);
                j += 1;
            }
            self.trails.set(i, row);
            i += 1;
        }
    }

    /// Deposit pheromone along a path.
    pub fn deposit(&mut self, path: &[usize], pheromone: Trit)
        requires
            old(self).wf(),
            path@.len() >= 2 ==> forall|k: int| 0 <= k < path@.len() ==> #[trigger] path@[k] < GRID_CELLS,
        ensures
            final(self).wf(),
            final(self)@ =~~= with_path(old(self)@, path@, pheromone),
            forall|a: int, b: int|
                0 <= a < 9 && 0 <= b < 9 ==> #[trigger] final(self)@[a][b] == if exists|k: int|
                    0 <= k && k + 1 < path@.len() && path@[k] == a && #[trigger] path@[k + 1] == b {
                    pheromone
                } else {
                    old(self)@[a][b]
                },
    {
        let ghost before = self@;
        let mut m: usize = 0;
        proof {
            assert(self@ =~~= with_first_edges(before, path@, 0, pheromone));
        }
        while m < path.len() && m + 1 < path.len()
            invariant
                self.wf(),
                m == 0 || m < path@.len(),
                path@.len() >= 2 ==> forall|k: int| 0 <= k < path@.len() ==> #[trigger] path@[k] < GRID_CELLS,
                is_square_grid(before),
                self@ =~~= with_first_edges(before, path@, m as int, pheromone),
            decreases path.len() - m,
        {
            let from = path[m];
            let to = path[m + 1];
            let ghost pre = self@;
            let mut row = Vec::new();
            std::mem::swap(&mut row, &mut self.trails[from]);
            row.set(to, pheromone);
            self.trails.set(from, row);
            proof {
                assert forall|i: int, j: int| 0 <= i < 9 && 0 <= j < 9 implies is_first_edge(
                    path@,
                    m + 1,
                    i,
                    j,
                ) == (is_first_edge(path@, m as int, i, j) || (i == from && j == to)) by {
                    if i == from && j == to {
                        assert(path@[m as int + 1] == j);
                    }
                }
                let goal = with_first_edges(before, path@, m + 1, pheromone);
                assert forall|i: int| 0 <= i < 9 implies #[trigger] self@[i] =~= goal[i] by {
                    assert forall|j: int| 0 <= j < 9 implies self@[i][j] == goal[i][j] by {
                        if i == from && j == to {
                        } else {
                            assert(self@[i][j] == pre[i][j]);
                        }
                    }
                }
                assert(self@ =~~= goal);
            }
            m += 1;
        }
        proof {
            assert forall|i: int, j: int| 0 <= i < 9 && 0 <= j < 9 implies is_first_edge(
                path@,
                m as int,
                i,
                j,
            ) == is_path_edge(path@, i, j) by {
                if is_path_edge(path@, i, j) {
                    let k = choose|k: int|
                        0 <= k && k + 1 < path@.len() && path@[k] == i && #[trigger] path@[k + 1] == j;
                    assert(path@[k + 1] == j);
                }
            }
            assert forall|a: int, b: int| 0 <= a < 9 && 0 <= b < 9 implies #[trigger] self@[a][b] == if exists|
                k: int,
            | 0 <= k && k + 1 < path@.len() && path@[k] == a && #[trigger] path@[k + 1] == b {
                pheromone
            } else {
                before[a][b]
            } by {
                lemma_read_after_deposit(before, path@, pheromone, a, b);
            }
        }
    }
}

/// Whether `to` directly follows `from` in one of the first `m` edges of `path`.
spec fn is_first_edge(path: Seq<usize>, m: int, from: int, to: int) -> bool {
    exists|k: int|
        0 <= k < m && k + 1 < path.len() && path[k] == from && #[trigger] path[k + 1] == to
}

/// The matrix with the first `m` edges of `path` set to `p`.
spec fn with_first_edges(v: Seq<Seq<Trit>>, path: Seq<usize>, m: int, p: Trit) -> Seq<Seq<Trit>> {
    Seq::new(
        v.len(),
        |i: int|
            Seq::new(
                v[i].len(),
                |j: int|
                    if is_first_edge(path, m, i, j) {
                        p
                    } else {
                        v[i][j]
                    },
            ),
    )
}

/// A read gives back what the last write to that edge wrote, and a write
/// leaves every other edge (and every write outside the grid) unchanged.
pub proof fn lemma_read_after_write(v: Seq<Seq<Trit>>, from: int, to: int, p: Trit, a: int, b: int)
    requires
        is_square_grid(v),
    ensures
        is_square_grid(with_trail(v, from, to, p)),
        trail_of(with_trail(v, from, to, p), a, b) == if a == from && b == to && 0 <= a < 9 && 0
            <= b < 9 {
            p
        } else {
            trail_of(v, a, b)
        },
{
}

/// Every trail of an evaporated (or new) grid is neutral.
pub proof fn lemma_neutral_reads_zero(a: int, b: int)
    ensures
        is_square_grid(neutral_grid()),
        trail_of(neutral_grid(), a, b) == Trit::Zero,
{
}

/// After a deposit along a path, an edge `(a, b)` of the grid reads the
/// deposited pheromone exactly when `b` directly follows `a` somewhere in the
/// path; every other edge reads what it did before.
pub proof fn lemma_read_after_deposit(v: Seq<Seq<Trit>>, path: Seq<usize>, p: Trit, a: int, b: int)
    requires
        is_square_grid(v),
    ensures
        is_square_grid(with_path(v, path, p)),
        trail_of(with_path(v, path, p), a, b) == if 0 <= a < 9 && 0 <= b < 9 && exists|k: int|
            0 <= k && k + 1 < path.len() && path[k] == a && #[trigger] path[k + 1] == b {
            p
        } else {
            trail_of(v, a, b)
        },
{
    if 0 <= a < 9 && 0 <= b < 9 {
        if is_path_edge(path, a, b) {
            let k = choose|k: int| 0 <= k && k + 1 < path.len() && path[k] == a && #[trigger] path[k + 1] == b;
            assert(0 <= k && k + 1 < path.len() && path[k] == a && path[k + 1] == b);
        }
        if exists|k: int| 0 <= k && k + 1 < path.len() && path[k] == a && #[trigger] path[k + 1] == b {
            let k = choose|k: int| 0 <= k && k + 1 < path.len() && path[k] == a && #[trigger] path[k + 1] == b;
            assert(path[k + 1] == b);
        }
    }
}

} // verus!
