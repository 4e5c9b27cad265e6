use vstd::prelude::*;

verus! {

/// The route of one ant through the places of a colony: where it stands,
/// the places in the order it reached them, and which places it has seen.
#[derive(Clone, Debug)]
pub struct Tour {
    pub position: usize,
    pub path: Vec<usize>,
    pub visited: Vec<bool>,
}

impl Tour {
    /// The tour is coherent: it stands at the last place of its path, every
    /// place of the path lies in the grid, and a place counts as visited
    /// exactly when it lies on the path.
    pub open spec fn consistent(&self) -> bool {
        &&& self.path@.len() > 0
        &&& self.visited@.len() <= usize::MAX
        &&& self.position < self.visited@.len()
        &&& self.path@.last() == self.position
        &&& forall|k: int| 0 <= k < self.path@.len() ==> #[trigger] self.path@[k] < self.visited@.len()
        &&& forall|p: usize|
            p < self.visited@.len() ==> (#[trigger] self.visited@[p as int] <==> self.path@.contains(p))
    }

    /// Starts a tour at `start` among `grid_size` places.
    pub fn new(start: usize, grid_size: usize) -> (r: Self)
        requires
            start < grid_size,
        ensures
            r.position == start,
            r.path@ == seq![start],
            r.visited@ == Seq::new(grid_size as nat, |p: int| p == start),
            r.consistent(),
    {
        let mut visited: Vec<bool> = Vec::new();
        let mut i: usize = 0;
        while i < grid_size
            invariant
                i <= grid_size,
                visited@ == Seq::new(i as nat, |p: int| false),
            decreases grid_size - i,
        {
            visited.push(false);
            i += 1;
            assert(visited@ =~= Seq::new(i as nat, |p: int| false));
        }
        visited.set(start, true);
        let mut path: Vec<usize> = Vec::new();
        path.push(start);
        let r = Tour { position: start, path, visited };
        assert(r.visited@ =~= Seq::new(grid_size as nat, |p: int| p == start));
        assert forall|p: usize| p < r.visited@.len() implies (#[trigger] r.visited@[p as int]
            <==> r.path@.contains(p)) by {
            if r.path@.contains(p) {
                let k = choose|k: int| 0 <= k < r.path@.len() && r.path@[k] == p;
                assert(k == 0);
            }
            if p == start {
                assert(r.path@[0] == p);
            }
        }
        r
    }

    /// Moves the ant to `next`.
    pub fn visit(&mut self, next: usize)
        requires
            next < old(self).visited@.len(),
        ensures
            final(self).position == next,
            final(self).path@ == old(self).path@.push(next),
            final(self).visited@ == old(self).visited@.update(next as int, true),
            old(self).consistent() ==> final(self).consistent(),
    {
        let ghost before = *self;
        self.visited.set(next, true);
        self.position = next;
        self.path.push(next);
        proof {
            if before.consistent() {
                assert forall|p: usize| p < self.visited@.len() implies (#[trigger] self.visited@[p as int]
                    <==> self.path@.contains(p)) by {
                    if p == next {
                        assert(self.path@[self.path@.len() - 1] == p);
                    } else {
                        if before.path@.contains(p) {
                            let k = choose|k: int| 0 <= k < before.path@.len() && before.path@[k] == p;
                            assert(self.path@[k] == p);
                        }
                        if self.path@.contains(p) {
                            let k = choose|k: int| 0 <= k < self.path@.len() && self.path@[k] == p;
                            assert(k != self.path@.len() - 1);
                            assert(before.path@[k] == p);
                        }
                    }
                }
            }
        }
    }

    pub fn has_visited(&self, pos: usize) -> (r: bool)
        ensures
            r == (pos < self.visited@.len() && self.visited@[pos as int]),
    {
        if pos < self.visited.len() {
            self.visited[pos]
        } else {
            false
        }
    }

    /// Whether every place has been visited.
    pub fn is_complete(&self) -> (r: bool)
        ensures
            r == (forall|p: int| 0 <= p < self.visited@.len() ==> #[trigger] self.visited@[p]),
    {
        let mut i: usize = 0;
        while i < self.visited.len()
            invariant
                i <= self.visited@.len(),
                forall|p: int| 0 <= p < i ==> #[trigger] self.visited@[p],
            decreases self.visited.len() - i,
        {
            if !self.visited[i] {
                return false;
            }
            i += 1;
        }
        true
    }
}

/// A coherent tour is complete exactly when its path has passed through
/// every place of the grid.
pub proof fn lemma_complete_iff_path_covers(t: Tour)
    requires
        t.consistent(),
    ensures
        (forall|p: int| 0 <= p < t.visited@.len() ==> #[trigger] t.visited@[p]) <==> (forall|p: usize|
            p < t.visited@.len() ==> #[trigger] t.path@.contains(p)),
{
    if forall|p: int| 0 <= p < t.visited@.len() ==> #[trigger] t.visited@[p] {
        assert forall|p: usize| p < t.visited@.len() implies #[trigger] t.path@.contains(p) by {
            assert(t.visited@[p as int]);
        }
    }
    if forall|p: usize| p < t.visited@.len() ==> #[trigger] t.path@.contains(p) {
        assert forall|p: int| 0 <= p < t.visited@.len() implies #[trigger] t.visited@[p] by {
            assert(t.path@.contains(p as usize));
            assert(t.visited@[(p as usize) as int]);
        }
    }
}

} // verus!
