//! Backtracking search for a Hamiltonian path across the grid.
//!
//! The search is depth-first with a Warnsdorff-style look-ahead heuristic:
//! unvisited neighbours are tried in ascending order of their own unvisited
//! neighbour count, ties keeping the canonical direction order. An iteration
//! budget bounds the work; it is checked before each cell is visited, so the
//! reported iteration count is a tight bound on visits performed.
use crate::geometry::{
    adjacent, grid_ok, grid_total, in_bounds, spec_delta, spec_direction, Direction, GridSize,
    Point,
};
use vstd::prelude::*;

verus! {

broadcast use vstd::seq_lib::group_to_multiset_ensures;

/// Result of path finding.
#[derive(Debug, Clone, PartialEq)]
pub struct PathResult {
    pub found: bool,
    pub path: Vec<Point>,
    pub iterations: u32,
}

/// Working state owned by one search invocation: the visited-marker grid,
/// the current partial path (also the recursion stack), and the budget.
pub struct PathState {
    pub grid: Vec<Vec<bool>>,
    pub path: Vec<Point>,
    pub grid_size: GridSize,
    pub iterations: u32,
    pub max_iterations: u32,
}

/// The visited-marker grid as a sequence of rows of booleans.
pub open spec fn marks(s: PathState) -> Seq<Seq<bool>> {
    s.grid@.map_values(|row: Vec<bool>| row@)
}

/// Whether the in-bounds point `p` is marked visited.
pub open spec fn visited(s: PathState, p: Point) -> bool {
    s.grid@[p.row as int]@[p.col as int]
}

/// Visited, or out of bounds (out-of-bounds cells count as visited).
pub open spec fn visited_or_out(s: PathState, p: Point) -> bool {
    !in_bounds(p, s.grid_size) || visited(s, p)
}

/// Whether `p` occurs on the current path.
pub open spec fn on_path(s: PathState, p: Point) -> bool {
    exists|i: int| 0 <= i < s.path@.len() && s.path@[i] == p
}

/// The marker grid has the declared dimensions.
pub open spec fn grid_wf(s: PathState) -> bool {
    &&& grid_ok(s.grid_size)
    &&& s.grid@.len() == s.grid_size.rows
    &&& forall|r: int| 0 <= r < s.grid_size.rows ==> s.grid@[r]@.len() == s.grid_size.cols
}

/// The path is a well-formed partial solution: in bounds, distinct,
/// consecutive cells adjacent, and in exact correspondence with the
/// visited markers.
pub open spec fn path_wf(s: PathState) -> bool {
    &&& s.path@.len() <= grid_total(s.grid_size)
    &&& forall|i: int| 0 <= i < s.path@.len() ==> in_bounds(#[trigger] s.path@[i], s.grid_size)
    &&& forall|i: int, j: int| 0 <= i < j < s.path@.len() ==> s.path@[i] != s.path@[j]
    &&& forall|i: int| 0 <= i < s.path@.len() - 1 ==> adjacent(
        #[trigger] s.path@[i],
        s.path@[i + 1],
    )
    &&& forall|p: Point| in_bounds(p, s.grid_size) ==> (#[trigger] visited(s, p) <==> on_path(
        s,
        p,
    ))
}

/// A well-formed search state.
pub open spec fn state_wf(s: PathState) -> bool {
    &&& grid_wf(s)
    &&& path_wf(s)
    &&& s.iterations <= s.max_iterations
}

/// A Hamiltonian path across `g` from `start` to `end`: it has one entry
/// per grid cell, begins at `start`, ends at `end`, stays in bounds, never
/// repeats a point, and each consecutive pair is grid-adjacent.
pub open spec fn is_hamiltonian(path: Seq<Point>, g: GridSize, start: Point, end: Point) -> bool {
    &&& path.len() == grid_total(g)
    &&& path.len() > 0
    &&& path[0] == start
    &&& path.last() == end
    &&& forall|i: int| 0 <= i < path.len() ==> in_bounds(#[trigger] path[i], g)
    &&& forall|i: int, j: int| 0 <= i < j < path.len() ==> path[i] != path[j]
    &&& forall|i: int| 0 <= i < path.len() - 1 ==> adjacent(#[trigger] path[i], path[i + 1])
}

impl PathState {
    pub fn new(grid_size: GridSize, max_iterations: u32) -> (s: Self)
        requires
            grid_ok(grid_size),
        ensures
            s.grid_size == grid_size,
            s.max_iterations == max_iterations,
            s.iterations == 0,
            s.path@.len() == 0,
            grid_wf(s),
            forall|r: int, c: int|
                0 <= r < grid_size.rows && 0 <= c < grid_size.cols ==> !(#[trigger] s.grid@[r]@[c]),
    {
        let rows = grid_size.rows as usize;
        let cols = grid_size.cols as usize;
        let mut grid: Vec<Vec<bool>> = Vec::new();
        for r in 0..rows
            invariant
                grid@.len() == r,
                forall|i: int| 0 <= i < r ==> (#[trigger] grid@[i])@.len() == cols,
                forall|i: int, c: int| 0 <= i < r && 0 <= c < cols ==> !(#[trigger] grid@[i]@[c]),
        {
            let mut row: Vec<bool> = Vec::new();
            for c in 0..cols
                invariant
                    row@.len() == c,
                    forall|k: int| 0 <= k < c ==> !(#[trigger] row@[k]),
            {
                row.push(false);
            }
            grid.push(row);
        }
        Self { grid, path: Vec::new(), grid_size, iterations: 0, max_iterations }
    }

    pub fn is_valid(&self, p: Point) -> (r: bool)
        ensures
            r == in_bounds(p, self.grid_size),
    {
        p.row >= 0 && p.row < self.grid_size.rows && p.col >= 0 && p.col < self.grid_size.cols
    }

    pub fn is_visited(&self, p: Point) -> (r: bool)
        requires
            grid_wf(*self),
        ensures
            r == visited_or_out(*self, p),
    {
        if !self.is_valid(p) {
            return true;
        }
        self.grid[p.row as usize][p.col as usize]
    }

    pub fn visit(&mut self, p: Point)
        requires
            grid_wf(*old(self)),
            in_bounds(p, old(self).grid_size),
        ensures
            final(self).grid_size == old(self).grid_size,
            final(self).iterations == old(self).iterations,
            final(self).max_iterations == old(self).max_iterations,
            final(self).path@ == old(self).path@.push(p),
            grid_wf(*final(self)),
            final(self).grid@[p.row as int]@ == old(self).grid@[p.row as int]@.update(
                p.col as int,
                true,
            ),
            forall|r: int|
                0 <= r < old(self).grid_size.rows && r != p.row ==> final(self).grid@[r]@ == old(
                    self,
                ).grid@[r]@,
    {
        let r = p.row as usize;
        let c = p.col as usize;
        self.grid[r][c] = true;
        self.path.push(p);
    }

    pub fn unvisit(&mut self, p: Point)
        requires
            grid_wf(*old(self)),
            in_bounds(p, old(self).grid_size),
            old(self).path@.len() > 0,
        ensures
            final(self).grid_size == old(self).grid_size,
            final(self).iterations == old(self).iterations,
            final(self).max_iterations == old(self).max_iterations,
            final(self).path@ == old(self).path@.drop_last(),
            grid_wf(*final(self)),
            final(self).grid@[p.row as int]@ == old(self).grid@[p.row as int]@.update(
                p.col as int,
                false,
            ),
            forall|r: int|
                0 <= r < old(self).grid_size.rows && r != p.row ==> final(self).grid@[r]@ == old(
                    self,
                ).grid@[r]@,
    {
        let r = p.row as usize;
        let c = p.col as usize;
        self.grid[r][c] = false;
        self.path.pop();
    }

    pub fn all_visited(&self) -> (r: bool)
        requires
            grid_wf(*self),
        ensures
            r == (self.path@.len() == grid_total(self.grid_size)),
    {
        let total = (self.grid_size.rows * self.grid_size.cols) as usize;
        self.path.len() == total
    }

    /// The in-bounds, unvisited neighbours of `p`, with the direction that
    /// reaches each, in canonical direction order.
    pub fn get_neighbors(&self, p: Point) -> (r: Vec<(Point, Direction)>)
        requires
            grid_wf(*self),
            in_bounds(p, self.grid_size),
        ensures
            r@ == spec_neighbors(*self, p),
            forall|k: int|
                0 <= k < r@.len() ==> {
                    &&& in_bounds((#[trigger] r@[k]).0, self.grid_size)
                    &&& !visited(*self, r@[k].0)
                    &&& spec_direction(p, r@[k].0) == Some(r@[k].1)
                },
    {
        let dirs = Direction::all();
        let mut r: Vec<(Point, Direction)> = Vec::new();
        for idx in 0..4usize
            invariant
                grid_wf(*self),
                in_bounds(p, self.grid_size),
                dirs@ == crate::geometry::dir_order(),
                spec_neighbors(*self, p) =~= r@ + spec_neighbors_from(*self, p, idx as int),
                forall|k: int|
                    0 <= k < r@.len() ==> {
                        &&& in_bounds((#[trigger] r@[k]).0, self.grid_size)
                        &&& !visited(*self, r@[k].0)
                        &&& spec_direction(p, r@[k].0) == Some(r@[k].1)
                    },
        {
            let dir = dirs[idx];
            let (dr, dc) = dir.delta();
            let next = Point::new(p.row + dr, p.col + dc);
            proof {
                assert(next == neighbor_point(p, dir));
                assert(spec_direction(p, next) == Some(dir));
            }
            let ghost prev = r@;
            if self.is_valid(next) && !self.is_visited(next) {
                r.push((next, dir));
            }
            proof {
                assert(spec_neighbors_from(*self, p, idx as int) == neighbor_entry(
                    *self,
                    p,
                    dir_at(idx as int),
                ) + spec_neighbors_from(*self, p, idx as int + 1));
                assert(spec_neighbors(*self, p) =~= r@ + spec_neighbors_from(
                    *self,
                    p,
                    idx as int + 1,
                ));
            }
        }
        r
    }
}

/// The point one step from `p` in direction `d`.
pub open spec fn neighbor_point(p: Point, d: Direction) -> Point {
    Point { row: (p.row + spec_delta(d).0) as i32, col: (p.col + spec_delta(d).1) as i32 }
}

/// The direction tried at position `i` of the canonical order.
pub open spec fn dir_at(i: int) -> Direction {
    crate::geometry::dir_order()[i]
}

/// The singleton neighbour entry for direction `d`, or empty if that
/// neighbour is out of bounds or already visited.
pub open spec fn neighbor_entry(s: PathState, p: Point, d: Direction) -> Seq<(Point, Direction)> {
    if !visited_or_out(s, neighbor_point(p, d)) {
        seq![(neighbor_point(p, d), d)]
    } else {
        Seq::empty()
    }
}

/// The neighbour entries for the canonical directions from position `i` on.
pub open spec fn spec_neighbors_from(s: PathState, p: Point, i: int) -> Seq<(Point, Direction)>
    decreases 4 - i,
{
    if i < 0 || i >= 4 {
        Seq::empty()
    } else {
        neighbor_entry(s, p, dir_at(i)) + spec_neighbors_from(s, p, i + 1)
    }
}

/// The in-bounds, unvisited neighbours of `p` with their directions, in
/// canonical direction order.
pub open spec fn spec_neighbors(s: PathState, p: Point) -> Seq<(Point, Direction)> {
    spec_neighbors_from(s, p, 0)
}

/// The number of in-bounds, unvisited neighbours of `p`.
pub open spec fn spec_count_unvisited(s: PathState, p: Point) -> int {
    count_one(s, p, Direction::Up) + count_one(s, p, Direction::Right) + count_one(
        s,
        p,
        Direction::Down,
    ) + count_one(s, p, Direction::Left)
}

/// One if the neighbour of `p` in direction `d` is in bounds and
/// unvisited, zero otherwise.
pub open spec fn count_one(s: PathState, p: Point, d: Direction) -> int {
    if !visited_or_out(s, neighbor_point(p, d)) {
        1
    } else {
        0
    }
}

/// Count how many neighbours of `p` are in bounds and unvisited.
pub fn count_unvisited_neighbors(state: &PathState, p: Point) -> (r: usize)
    requires
        grid_wf(*state),
        in_bounds(p, state.grid_size),
    ensures
        r == spec_count_unvisited(*state, p),
{
    let dirs = Direction::all();
    let mut count: usize = 0;
    for idx in 0..4usize
        invariant
            grid_wf(*state),
            in_bounds(p, state.grid_size),
            dirs@ == crate::geometry::dir_order(),
            count <= idx,
            count == count_prefix(*state, p, idx as int),
    {
        let dir = dirs[idx];
        let (dr, dc) = dir.delta();
        let next = Point::new(p.row + dr, p.col + dc);
        proof {
            assert(next == neighbor_point(p, dir));
        }
        if state.is_valid(next) && !state.is_visited(next) {
            count += 1;
        }
    }
    proof {
        reveal_with_fuel(count_prefix, 5);
        assert(count_prefix(*state, p, 4) == spec_count_unvisited(*state, p));
    }
    count
}

/// The unvisited-neighbour count restricted to the first `i` canonical
/// directions.
pub open spec fn count_prefix(s: PathState, p: Point, i: int) -> int
    decreases i,
{
    if i <= 0 {
        0
    } else {
        count_prefix(s, p, i - 1) + count_one(s, p, dir_at(i - 1))
    }
}

/// Sort neighbour candidates ascending by their own unvisited-neighbour
/// count. The sort is stable: ties keep the order of `v`, which is the
/// canonical direction order.
fn sort_neighbors(state: &PathState, v: Vec<(Point, Direction)>) -> (r: Vec<(Point, Direction)>)
    requires
        grid_wf(*state),
        forall|k: int| 0 <= k < v@.len() ==> in_bounds((#[trigger] v@[k]).0, state.grid_size),
    ensures
        r@.len() == v@.len(),
        r@.to_multiset() == v@.to_multiset(),
        forall|k: int| 0 <= k < r@.len() ==> v@.contains(#[trigger] r@[k]),
        forall|i: int, j: int|
            0 <= i < j < r@.len() ==> spec_count_unvisited(*state, (#[trigger] r@[i]).0)
                <= spec_count_unvisited(*state, (#[trigger] r@[j]).0),
{
    let mut rem = v;
    let ghost orig = rem@;
    let mut out: Vec<(Point, Direction)> = Vec::new();
    while rem.len() > 0
        invariant
            grid_wf(*state),
            out@.to_multiset().add(rem@.to_multiset()) =~= orig.to_multiset(),
            out@.len() + rem@.len() == orig.len(),
            forall|k: int| 0 <= k < rem@.len() ==> orig.contains(#[trigger] rem@[k]),
            forall|k: int| 0 <= k < out@.len() ==> orig.contains(#[trigger] out@[k]),
            forall|k: int| 0 <= k < orig.len() ==> in_bounds((#[trigger] orig[k]).0, state.grid_size),
            forall|i: int, j: int|
                0 <= i < j < out@.len() ==> spec_count_unvisited(*state, (#[trigger] out@[i]).0)
                    <= spec_count_unvisited(*state, (#[trigger] out@[j]).0),
            forall|i: int, j: int|
                0 <= i < out@.len() && 0 <= j < rem@.len() ==> spec_count_unvisited(
                    *state,
                    (#[trigger] out@[i]).0,
                ) <= spec_count_unvisited(*state, (#[trigger] rem@[j]).0),
        decreases rem@.len(),
    {
        let mut best: usize = 0;
        let mut best_count = count_unvisited_neighbors(state, rem[0].0);
        for j in 1..rem.len()
            invariant
                grid_wf(*state),
                best < j,
                rem@.len() > 0,
                forall|k: int| 0 <= k < rem@.len() ==> in_bounds((#[trigger] rem@[k]).0, state.grid_size),
                best_count == spec_count_unvisited(*state, rem@[best as int].0),
                forall|k: int|
                    0 <= k < j ==> best_count <= spec_count_unvisited(
                        *state,
                        (#[trigger] rem@[k]).0,
                    ),
        {
            let c = count_unvisited_neighbors(state, rem[j].0);
            if c < best_count {
                best = j;
                best_count = c;
            }
        }
        let picked = rem.remove(best);
        out.push(picked);
    }
    out
}

/// Depth-first backtracking search for a Hamiltonian path.
///
/// Visits `current`, then recurses into unvisited neighbours ordered by
/// the look-ahead heuristic. On success the state's path has grown into a
/// full Hamiltonian path ending at `end`; on failure the state is exactly
/// as it was. The iteration budget is checked before each visit.
pub fn find_path_internal(state: &mut PathState, current: Point, end: Point) -> (found: bool)
    requires
        state_wf(*old(state)),
        in_bounds(current, old(state).grid_size),
        !visited(*old(state), current),
        old(state).path@.len() < grid_total(old(state).grid_size),
        old(state).path@.len() > 0 ==> adjacent(old(state).path@.last(), current),
    ensures
        final(state).grid_size == old(state).grid_size,
        final(state).max_iterations == old(state).max_iterations,
        state_wf(*final(state)),
        old(state).iterations <= final(state).iterations,
        !found ==> marks(*final(state)) == marks(*old(state)) && final(state).path@ == old(
            state,
        ).path@,
        found ==> {
            &&& final(state).path@.len() == grid_total(old(state).grid_size)
            &&& final(state).path@.subrange(0, old(state).path@.len() as int) == old(state).path@
            &&& final(state).path@[old(state).path@.len() as int] == current
            &&& final(state).path@.last() == end
        },
        found ==> old(state).iterations < old(state).max_iterations,
        old(state).iterations >= old(state).max_iterations ==> final(state).iterations == old(
            state,
        ).iterations,
        (old(state).iterations < old(state).max_iterations && current == end && old(
            state,
        ).path@.len() + 1 == grid_total(old(state).grid_size)) ==> found,
    decreases grid_total(state.grid_size) - state.path@.len(),
{
    if state.iterations >= state.max_iterations {
        return false;
    }
    let ghost pre = *state;
    state.iterations = state.iterations + 1;

    state.visit(current);
    proof {
        lemma_visit_wf(pre, *state, current);
    }
    let ghost mid = *state;

    // Check if we reached the end and visited all cells
    if current == end {
        if state.all_visited() {
            proof {
                assert(state.path@.subrange(0, pre.path@.len() as int) =~= pre.path@);
            }
            return true;
        }
        state.unvisit(current);
        proof {
            lemma_unvisit_restores(pre, mid, *state, current);
        }
        return false;
    }

    // Check if we visited all cells but not at end
    if state.all_visited() {
        state.unvisit(current);
        proof {
            lemma_unvisit_restores(pre, mid, *state, current);
        }
        return false;
    }

    // Unvisited neighbours, ordered by the look-ahead heuristic
    let neighbors = state.get_neighbors(current);
    let neighbors = sort_neighbors(state, neighbors);

    let n = neighbors.len();
    #[verifier::loop_isolation(false)]
    for k in 0..n
        invariant
            state_wf(*state),
            state.grid_size == mid.grid_size,
            state.max_iterations == mid.max_iterations,
            marks(*state) == marks(mid),
            state.path@ == mid.path@,
            mid.iterations <= state.iterations,
    {
        let (next, _dir) = neighbors[k];
        proof {
            assert(mid.grid_size == state.grid_size);
            lemma_marks_eq_visited(*state, mid, next);
            assert(!visited(*state, next));
            assert(state.path@.last() == current);
            assert(state.path@.len() < grid_total(state.grid_size));
        }
        if find_path_internal(state, next, end) {
            proof {
                assert(state.path@.subrange(0, mid.path@.len() as int) == mid.path@);
                assert(state.path@.subrange(0, pre.path@.len() as int) =~= pre.path@);
                assert(state.path@[pre.path@.len() as int] == mid.path@[pre.path@.len() as int]);
            }
            return true;
        }
    }

    proof {
        assert forall|r: int| 0 <= r < mid.grid_size.rows implies state.grid@[r]@
            == mid.grid@[r]@ by {
            assert(marks(*state)[r] == state.grid@[r]@);
            assert(marks(mid)[r] == mid.grid@[r]@);
        }
    }
    state.unvisit(current);
    proof {
        lemma_unvisit_restores(pre, mid, *state, current);
    }
    false
}

/// Two states with equal visited markers agree on every cell.
proof fn lemma_marks_eq_visited(a: PathState, b: PathState, p: Point)
    requires
        marks(a) == marks(b),
        a.grid_size == b.grid_size,
        grid_wf(a),
        grid_wf(b),
        in_bounds(p, a.grid_size),
    ensures
        visited(a, p) == visited(b, p),
{
    assert(marks(a)[p.row as int] == a.grid@[p.row as int]@);
    assert(marks(b)[p.row as int] == b.grid@[p.row as int]@);
}

/// Visiting an unvisited in-bounds cell adjacent to the path's last point
/// preserves well-formedness of the path.
proof fn lemma_visit_wf(pre: PathState, post: PathState, p: Point)
    requires
        grid_wf(pre),
        path_wf(pre),
        in_bounds(p, pre.grid_size),
        !visited(pre, p),
        pre.path@.len() < grid_total(pre.grid_size),
        pre.path@.len() > 0 ==> adjacent(pre.path@.last(), p),
        post.grid_size == pre.grid_size,
        post.path@ == pre.path@.push(p),
        grid_wf(post),
        post.grid@[p.row as int]@ == pre.grid@[p.row as int]@.update(p.col as int, true),
        forall|r: int|
            0 <= r < pre.grid_size.rows && r != p.row ==> post.grid@[r]@ == pre.grid@[r]@,
    ensures
        path_wf(post),
        !on_path(pre, p),
{
    assert(!on_path(pre, p));
    assert forall|q: Point| in_bounds(q, post.grid_size) implies (#[trigger] visited(post, q)
        <==> on_path(post, q)) by {
        if q == p {
            assert(visited(post, q));
            assert(post.path@[pre.path@.len() as int] == p);
            assert(on_path(post, q));
        } else {
            assert(visited(post, q) == visited(pre, q));
            if on_path(post, q) {
                let i = choose|i: int| 0 <= i < post.path@.len() && post.path@[i] == q;
                assert(post.path@[i] == q);
                assert(i < pre.path@.len());
                assert(on_path(pre, q));
            }
            if on_path(pre, q) {
                let i = choose|i: int| 0 <= i < pre.path@.len() && pre.path@[i] == q;
                assert(post.path@[i] == q);
                assert(on_path(post, q));
            }
        }
    }
    assert forall|i: int, j: int| 0 <= i < j < post.path@.len() implies post.path@[i]
        != post.path@[j] by {
        if j < pre.path@.len() {
        } else {
            assert(post.path@[j] == p);
            assert(post.path@[i] == pre.path@[i]);
            assert(!on_path(pre, p));
        }
    }
}

/// Unmarking the point just pushed restores the state exactly.
proof fn lemma_unvisit_restores(pre: PathState, mid: PathState, post: PathState, p: Point)
    requires
        grid_wf(pre),
        path_wf(pre),
        grid_wf(mid),
        in_bounds(p, pre.grid_size),
        !visited(pre, p),
        mid.grid_size == pre.grid_size,
        mid.path@ == pre.path@.push(p),
        mid.grid@[p.row as int]@ == pre.grid@[p.row as int]@.update(p.col as int, true),
        forall|r: int|
            0 <= r < pre.grid_size.rows && r != p.row ==> mid.grid@[r]@ == pre.grid@[r]@,
        post.grid_size == mid.grid_size,
        post.path@ == mid.path@.drop_last(),
        grid_wf(post),
        post.grid@[p.row as int]@ == mid.grid@[p.row as int]@.update(p.col as int, false),
        forall|r: int|
            0 <= r < mid.grid_size.rows && r != p.row ==> post.grid@[r]@ == mid.grid@[r]@,
    ensures
        marks(post) == marks(pre),
        post.path@ == pre.path@,
        path_wf(post),
{
    assert(post.path@ =~= pre.path@);
    assert forall|r: int| 0 <= r < pre.grid_size.rows implies marks(post)[r] == marks(pre)[r] by {
        assert(marks(post)[r] == post.grid@[r]@);
        assert(marks(pre)[r] == pre.grid@[r]@);
        if r == p.row {
            assert(post.grid@[r]@ =~= pre.grid@[r]@);
        }
    }
    assert(marks(post) =~= marks(pre));
    assert forall|q: Point| in_bounds(q, post.grid_size) implies (#[trigger] visited(post, q)
        <==> on_path(post, q)) by {
        lemma_marks_eq_visited(post, pre, q);
        assert(on_path(post, q) == on_path(pre, q));
    }
}

/// Find a path from start to end that visits all cells.
///
/// Returns the found flag, the path itself (empty when none was found
/// within the budget), and the number of cells visited. A successful
/// search always yields a Hamiltonian path; a zero budget aborts before
/// any visit.
pub fn find_road_path(
    start_row: i32,
    start_col: i32,
    end_row: i32,
    end_col: i32,
    grid_rows: i32,
    grid_cols: i32,
    max_iterations: u32,
) -> (r: PathResult)
    requires
        grid_ok((GridSize { rows: grid_rows, cols: grid_cols })),
        in_bounds(
            (Point { row: start_row, col: start_col }),
            (GridSize { rows: grid_rows, cols: grid_cols }),
        ),
    ensures
        r.found ==> is_hamiltonian(
            r.path@,
            (GridSize { rows: grid_rows, cols: grid_cols }),
            (Point { row: start_row, col: start_col }),
            (Point { row: end_row, col: end_col }),
        ),
        !r.found ==> r.path@.len() == 0,
        r.iterations <= max_iterations,
        max_iterations == 0 ==> !r.found && r.iterations == 0,
        (max_iterations >= 1 && grid_rows * grid_cols == 1 && end_row == start_row && end_col
            == start_col) ==> r.found,
        (start_row == end_row && start_col == end_col && grid_rows * grid_cols > 1) ==> !r.found,
{
    let start = Point::new(start_row, start_col);
    let end = Point::new(end_row, end_col);
    let grid_size = GridSize { rows: grid_rows, cols: grid_cols };

    let mut state = PathState::new(grid_size, max_iterations);
    proof {
        assert forall|p: Point| in_bounds(p, state.grid_size) implies (#[trigger] visited(state, p)
            <==> on_path(state, p)) by {
            assert(!visited(state, p));
        }
        assert(grid_total(grid_size) >= 1) by (nonlinear_arith)
            requires
                grid_size.rows >= 1,
                grid_size.cols >= 1,
        ;
    }
    let found = find_path_internal(&mut state, start, end);
    proof {
        // Equal endpoints on a grid of more than one cell contradict the
        // distinctness of a found path.
        if found && start == end && grid_total(grid_size) > 1 {
            assert(state.path@[0] == state.path@[state.path@.len() - 1]);
            assert(false);
        }
    }

    let PathState { path, iterations, .. } = state;
    PathResult { found, path: if found { path } else { Vec::new() }, iterations }
}

} // verus!
