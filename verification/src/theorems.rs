//! What holds of every board, proved about the model that the engine's
//! contracts are stated over.

use vstd::prelude::*;
use crate::torus::{columns, is_board, live_neighbours, next_generation, occupied, rows, wrap};

verus! {

/// The next generation is a function of the board alone: two boards with the
/// same cells have the same next generation, whatever was computed before.
pub proof fn lemma_next_generation_deterministic(a: Seq<Seq<bool>>, b: Seq<Seq<bool>>)
    requires
        a == b,
    ensures
        next_generation(a) == next_generation(b),
{
}

/// The next generation of a board is a board of the same size.
pub proof fn lemma_next_generation_keeps_size(g: Seq<Seq<bool>>)
    requires
        is_board(g),
    ensures
        is_board(next_generation(g)),
        columns(next_generation(g)) == columns(g),
        rows(next_generation(g)) == rows(g),
{
}

/// Every coordinate wraps to one on the axis.
pub proof fn lemma_wrap_in_range(i: int, n: int)
    requires
        n > 0,
    ensures
        0 <= wrap(i, n) < n,
{
    assert(0 <= i % n < n) by (nonlinear_arith)
        requires
            n > 0,
    ;
}

/// The step before the first coordinate is the last, and the step after the
/// last is the first.
pub proof fn lemma_wrap_at_ends(n: int)
    requires
        n > 0,
    ensures
        wrap(-1, n) == n - 1,
        wrap(n, n) == 0,
{
    assert((-1int) % n == n - 1) by (nonlinear_arith)
        requires
            n > 0,
    ;
    assert(n % n == 0) by (nonlinear_arith)
        requires
            n > 0,
    ;
}

/// Opposite corners touch: the neighbour up and left of `(0, 0)` is the last
/// cell of the last column, and the neighbour down and right of that cell is
/// `(0, 0)`. So each of the two, when alive, is counted by the other. This
/// holds on every board, down to a single cell.
pub proof fn lemma_corners_are_neighbours(g: Seq<Seq<bool>>)
    requires
        is_board(g),
    ensures
        occupied(g, -1, -1) == (if g[columns(g) - 1][rows(g) - 1] {
            1int
        } else {
            0int
        }),
        occupied(g, (columns(g) - 1) + 1, (rows(g) - 1) + 1) == (if g[0][0] {
            1int
        } else {
            0int
        }),
        g[columns(g) - 1][rows(g) - 1] ==> live_neighbours(g, 0, 0) >= 1,
        g[0][0] ==> live_neighbours(g, columns(g) - 1, rows(g) - 1) >= 1,
{
    lemma_wrap_at_ends(columns(g));
    lemma_wrap_at_ends(rows(g));
}

/// On an axis of length one every coordinate is the only one there is.
pub proof fn lemma_wrap_unit_axis(i: int)
    ensures
        wrap(i, 1) == 0,
{
}

/// On a board one column wide the columns to the left and to the right are
/// the column itself: a cell is its own neighbour twice, and the cells above
/// and below it are its neighbours three times each.
pub proof fn lemma_one_column_board(g: Seq<Seq<bool>>, y: int)
    requires
        is_board(g),
        columns(g) == 1,
    ensures
        live_neighbours(g, 0, y) == 2 * occupied(g, 0, y) + 3 * occupied(g, 0, y - 1) + 3
            * occupied(g, 0, y + 1),
{
}

/// On a board one row high the rows above and below are the row itself: a
/// cell is its own neighbour twice, and the cells to its left and right are
/// its neighbours three times each.
pub proof fn lemma_one_row_board(g: Seq<Seq<bool>>, x: int)
    requires
        is_board(g),
        rows(g) == 1,
    ensures
        live_neighbours(g, x, 0) == 2 * occupied(g, x, 0) + 3 * occupied(g, x - 1, 0) + 3
            * occupied(g, x + 1, 0),
{
}

/// On a board of a single cell all eight neighbours are that cell: alive, it
/// counts itself eight times, and so it is dead in the next generation
/// whatever it was.
pub proof fn lemma_single_cell_board(g: Seq<Seq<bool>>)
    requires
        is_board(g),
        columns(g) == 1,
        rows(g) == 1,
    ensures
        live_neighbours(g, 0, 0) == (if g[0][0] {
            8int
        } else {
            0int
        }),
        !next_generation(g)[0][0],
{
}

/// No life comes from nothing: a board with no live cell is its own next
/// generation.
pub proof fn lemma_dead_board_stays_dead(g: Seq<Seq<bool>>)
    requires
        is_board(g),
        forall|x: int, y: int| 0 <= x < columns(g) && 0 <= y < rows(g) ==> !(#[trigger] g[x][y]),
    ensures
        next_generation(g) == g,
{
    let next = next_generation(g);
    assert forall|x: int, y: int| 0 <= x < columns(g) && 0 <= y < rows(g) implies live_neighbours(
        g,
        x,
        y,
    ) == 0 by {
        lemma_occupied_by_none(g, x - 1, y - 1);
        lemma_occupied_by_none(g, x, y - 1);
        lemma_occupied_by_none(g, x + 1, y - 1);
        lemma_occupied_by_none(g, x - 1, y);
        lemma_occupied_by_none(g, x + 1, y);
        lemma_occupied_by_none(g, x - 1, y + 1);
        lemma_occupied_by_none(g, x, y + 1);
        lemma_occupied_by_none(g, x + 1, y + 1);
    }
    assert forall|x: int| 0 <= x < columns(g) implies #[trigger] next[x] =~= g[x] by {
        assert forall|y: int| 0 <= y < rows(g) implies next[x][y] == g[x][y] by {
            assert(live_neighbours(g, x, y) == 0);
            assert(!g[x][y]);
        }
    }
    assert(next =~= g);
}

/// On a board with no live cell no coordinate wraps to one.
proof fn lemma_occupied_by_none(g: Seq<Seq<bool>>, x: int, y: int)
    requires
        is_board(g),
        forall|i: int, j: int| 0 <= i < columns(g) && 0 <= j < rows(g) ==> !(#[trigger] g[i][j]),
    ensures
        occupied(g, x, y) == 0,
{
    lemma_wrap_in_range(x, columns(g));
    lemma_wrap_in_range(y, rows(g));
    assert(!g[wrap(x, columns(g))][wrap(y, rows(g))]);
}

} // verus!
