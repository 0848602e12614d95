//! The mathematical model of a board: a sequence of columns, each a sequence
//! of cells, `true` for a live cell. The cell at `(x, y)` is `g[x][y]`.
//! Coordinates outside the board wrap round, so the board has no edge.

use vstd::prelude::*;

verus! {

/// `g` is a rectangular board with at least one column and one row.
pub open spec fn is_board(g: Seq<Seq<bool>>) -> bool {
    &&& g.len() > 0
    &&& g[0].len() > 0
    &&& forall|x: int| 0 <= x < g.len() ==> (#[trigger] g[x]).len() == g[0].len()
}

/// Number of columns of `g`.
pub open spec fn columns(g: Seq<Seq<bool>>) -> int {
    g.len() as int
}

/// Number of rows of `g`.
pub open spec fn rows(g: Seq<Seq<bool>>) -> int {
    g[0].len() as int
}

/// The coordinate on an axis of length `n` that `i` stands for: `-1` is the
/// last one, `n` is the first.
pub open spec fn wrap(i: int, n: int) -> int {
    i % n
}

/// A coordinate on the axis stands for itself.
pub proof fn lemma_wrap_inside(i: int, n: int)
    requires
        0 <= i < n,
    ensures
        wrap(i, n) == i,
{
    assert(i % n == i) by (nonlinear_arith)
        requires
            0 <= i < n,
    ;
}

/// 1 if the cell that `(x, y)` wraps to is alive, else 0.
pub open spec fn occupied(g: Seq<Seq<bool>>, x: int, y: int) -> int {
    if g[wrap(x, columns(g))][wrap(y, rows(g))] {
        1
    } else {
        0
    }
}

/// The number of live cells among the eight cells around `(x, y)`. On a
/// board one column wide or one row high several of the eight are the same
/// cell, which is then counted once for each offset that reaches it.
pub open spec fn live_neighbours(g: Seq<Seq<bool>>, x: int, y: int) -> int {
    occupied(g, x - 1, y - 1) + occupied(g, x, y - 1) + occupied(g, x + 1, y - 1)
        + occupied(g, x - 1, y) + occupied(g, x + 1, y)
        + occupied(g, x - 1, y + 1) + occupied(g, x, y + 1) + occupied(g, x + 1, y + 1)
}

/// Whether a cell is alive in the next generation, given whether it is alive
/// now and how many of its neighbours are.
pub open spec fn survives(alive: bool, neighbours: int) -> bool {
    if alive {
        neighbours == 2 || neighbours == 3
    } else {
        neighbours == 3
    }
}

/// The generation that follows `g`: every cell decided from `g` alone.
pub open spec fn next_generation(g: Seq<Seq<bool>>) -> Seq<Seq<bool>> {
    Seq::new(
        g.len(),
        |x: int| Seq::new(g[0].len(), |y: int| survives(g[x][y], live_neighbours(g, x, y))),
    )
}

/// The coordinate before `i` on an axis of length `n`, wrapping from the
/// first to the last.
pub fn wrap_back(i: usize, n: usize) -> (prev: usize)
    requires
        i < n,
    ensures
        prev == wrap(i - 1, n as int),
        prev < n,
{
    if i == 0 {
        assert((-1int) % (n as int) == n - 1) by (nonlinear_arith)
            requires
                n > 0,
        ;
        n - 1
    } else {
        assert((i - 1) % (n as int) == i - 1) by (nonlinear_arith)
            requires
                0 < i < n,
        ;
        i - 1
    }
}

/// The coordinate after `i` on an axis of length `n`, wrapping from the last
/// to the first.
pub fn wrap_forward(i: usize, n: usize) -> (next: usize)
    requires
        i < n,
    ensures
        next == wrap(i + 1, n as int),
        next < n,
{
    if i + 1 == n {
        assert((i + 1) % (n as int) == 0) by (nonlinear_arith)
            requires
                i + 1 == n,
                n > 0,
        ;
        0
    } else {
        assert((i + 1) % (n as int) == i + 1) by (nonlinear_arith)
            requires
                0 <= i,
                i + 1 < n,
        ;
        i + 1
    }
}

/// The transition rule on one cell.
pub fn next_cell(alive: bool, neighbours: i32) -> (next: bool)
    ensures
        next == survives(alive, neighbours as int),
{
    if alive {
        neighbours == 2 || neighbours == 3
    } else {
        neighbours == 3
    }
}

} // verus!
