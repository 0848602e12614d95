//! The engine: a board of fixed size held as columns of cells, stepped one
//! generation at a time.

use vstd::prelude::*;
use crate::random::{gen_range, thread_rng};
use crate::torus::{
    columns, is_board, lemma_wrap_inside, live_neighbours, next_cell, next_generation, occupied,
    rows, survives, wrap, wrap_back, wrap_forward,
};

verus! {

/// Why an operation on a board was refused.
#[derive(Debug, Clone, Copy, PartialEq, Eq)]
pub enum GridError {
    /// A board was asked for with no columns or no rows.
    InvalidDimension,
    /// A coordinate lies outside the board.
    IndexError,
}

/// A board and its size. Cells are stored as 0 (dead) or 1 (alive), column
/// by column.
#[derive(Debug)]
pub struct GameOfLife {
    grid: Vec<Vec<i32>>,
    w: usize,
    h: usize,
}

/// Writes `value` into column `x`, row `y` of `grid`; nothing else changes.
fn store(grid: &mut Vec<Vec<i32>>, x: usize, y: usize, value: i32)
    requires
        x < old(grid)@.len(),
        y < old(grid)@[x as int]@.len(),
    ensures
        final(grid)@.len() == old(grid)@.len(),
        final(grid)@[x as int]@ == old(grid)@[x as int]@.update(y as int, value),
        forall|i: int| 0 <= i < old(grid)@.len() && i != x ==> final(grid)@[i] == old(grid)@[i],
    no_unwind
{
    grid[x][y] = value;
}

/// A grid of `width` columns of `height` dead cells each.
fn dead_grid(width: usize, height: usize) -> (grid: Vec<Vec<i32>>)
    ensures
        grid@.len() == width,
        forall|x: int| 0 <= x < width ==> (#[trigger] grid@[x])@ == Seq::new(
            height as nat,
            |y: int| 0i32,
        ),
{
    let mut grid: Vec<Vec<i32>> = Vec::new();
    let mut x: usize = 0;
    while x < width
        invariant
            x <= width,
            grid@.len() == x,
            forall|i: int| 0 <= i < x ==> (#[trigger] grid@[i])@ == Seq::new(
                height as nat,
                |y: int| 0i32,
            ),
        decreases width - x,
    {
        let mut column: Vec<i32> = Vec::new();
        let mut y: usize = 0;
        while y < height
            invariant
                y <= height,
                column@ == Seq::new(y as nat, |j: int| 0i32),
            decreases height - y,
        {
            column.push(0);
            y += 1;
            assert(column@ =~= Seq::new(y as nat, |j: int| 0i32));
        }
        grid.push(column);
        x += 1;
    }
    grid
}

impl View for GameOfLife {
    type V = Seq<Seq<bool>>;

    closed spec fn view(&self) -> Seq<Seq<bool>> {
        Seq::new(
            self.grid@.len(),
            |x: int| Seq::new(self.grid@[x]@.len(), |y: int| self.grid@[x]@[y] != 0),
        )
    }
}

impl GameOfLife {
    #[verifier::type_invariant]
    spec fn well_formed(&self) -> bool {
        &&& self.w > 0
        &&& self.h > 0
        &&& self.grid@.len() == self.w
        &&& forall|x: int| 0 <= x < self.w ==> (#[trigger] self.grid@[x])@.len() == self.h
        &&& forall|x: int, y: int|
            0 <= x < self.w && 0 <= y < self.h ==> {
                let c = #[trigger] self.grid@[x]@[y];
                c == 0 || c == 1
            }
    }

    /// A board of `width` columns and `height` rows, every cell dead;
    /// `InvalidDimension` if either is zero.
    pub fn blank(width: usize, height: usize) -> (made: Result<GameOfLife, GridError>)
        ensures
            width > 0 && height > 0 ==> made.is_ok() && made.unwrap()@ == Seq::new(
                width as nat,
                |x: int| Seq::new(height as nat, |y: int| false),
            ),
            !(width > 0 && height > 0) ==> made.is_err() && made.unwrap_err()
                == GridError::InvalidDimension,
    {
        if width == 0 || height == 0 {
            return Err(GridError::InvalidDimension);
        }
        let game = GameOfLife { grid: dead_grid(width, height), w: width, h: height };
        assert(game@ =~~= Seq::new(
            width as nat,
            |x: int| Seq::new(height as nat, |y: int| false),
        ));
        Ok(game)
    }

    /// A board of `width` columns and `height` rows, each cell alive or dead
    /// as the thread's random generator decides; `InvalidDimension` if
    /// either is zero.
    pub fn new(width: usize, height: usize) -> (made: Result<GameOfLife, GridError>)
        ensures
            width > 0 && height > 0 ==> made.is_ok() && is_board(made.unwrap()@) && columns(
                made.unwrap()@,
            ) == width && rows(made.unwrap()@) == height,
            !(width > 0 && height > 0) ==> made.is_err() && made.unwrap_err()
                == GridError::InvalidDimension,
    {
        match GameOfLife::blank(width, height) {
            Ok(mut new_game) => {
                new_game.randomize_grid();
                Ok(new_game)
            },
            Err(e) => Err(e),
        }
    }

    /// Draws every cell anew from the thread's random generator: 1 makes it
    /// alive, 0 dead. The size stays.
    pub fn randomize_grid(&mut self)
        ensures
            is_board(final(self)@),
            columns(final(self)@) == columns(old(self)@),
            rows(final(self)@) == rows(old(self)@),
    {
        let w = self.width();
        let h = self.height();
        let mut rng = thread_rng();
        let mut x: usize = 0;
        while x < w
            invariant
                is_board(self@),
                columns(self@) == w,
                rows(self@) == h,
            decreases w - x,
        {
            let mut y: usize = 0;
            while y < h
                invariant
                    x < w,
                    is_board(self@),
                    columns(self@) == w,
                    rows(self@) == h,
                decreases h - y,
            {
                let drawn = gen_range(&mut rng, 0, 2);
                let _ = self.set_cell(x, y, drawn != 0);
                y += 1;
            }
            x += 1;
        }
    }

    /// Replaces the board by its next generation. Every cell of the new
    /// board is decided from the old one alone: it is built apart and put in
    /// place when complete.
    pub fn update_game(&mut self)
        ensures
            final(self)@ == next_generation(old(self)@),
            is_board(final(self)@),
            columns(final(self)@) == columns(old(self)@),
            rows(final(self)@) == rows(old(self)@),
    {
        let w = self.width();
        let h = self.height();
        let mut new_grid: Vec<Vec<i32>> = Vec::new();
        let mut x: usize = 0;
        while x < w
            invariant
                x <= w,
                self@ == old(self)@,
                is_board(self@),
                columns(self@) == w,
                rows(self@) == h,
                new_grid@.len() == x,
                forall|i: int| 0 <= i < x ==> (#[trigger] new_grid@[i])@.len() == h,
                forall|i: int, j: int|
                    0 <= i < x && 0 <= j < h ==> {
                        let c = #[trigger] new_grid@[i]@[j];
                        &&& (c == 0 || c == 1)
                        &&& (c != 0) == survives(self@[i][j], live_neighbours(self@, i, j))
                    },
            decreases w - x,
        {
            let mut column: Vec<i32> = Vec::new();
            let mut y: usize = 0;
            while y < h
                invariant
                    x < w,
                    y <= h,
                    is_board(self@),
                    columns(self@) == w,
                    rows(self@) == h,
                    column@.len() == y,
                    forall|j: int|
                        0 <= j < y ==> {
                            let c = #[trigger] column@[j];
                            &&& (c == 0 || c == 1)
                            &&& (c != 0) == survives(
                                self@[x as int][j],
                                live_neighbours(self@, x as int, j),
                            )
                        },
                decreases h - y,
            {
                let num_alive = self.check_neighbours(x, y);
                let alive = self.is_alive(x, y);
                column.push(if next_cell(alive, num_alive) { 1 } else { 0 });
                y += 1;
            }
            new_grid.push(column);
            x += 1;
        }
        proof {
            use_type_invariant(&*self);
        }
        self.grid = new_grid;
        assert(self@ =~~= next_generation(old(self)@));
    }

    /// Whether the cell at `(x, y)` is alive.
    pub fn is_alive(&self, x: usize, y: usize) -> (alive: bool)
        requires
            x < columns(self@),
            y < rows(self@),
        ensures
            alive == self@[x as int][y as int],
    {
        proof {
            use_type_invariant(self);
        }
        self.grid[x][y] != 0
    }

    /// Number of columns.
    pub fn width(&self) -> (w: usize)
        ensures
            w == columns(self@),
            is_board(self@),
    {
        proof {
            use_type_invariant(self);
        }
        self.w
    }

    /// Number of rows.
    pub fn height(&self) -> (h: usize)
        ensures
            h == rows(self@),
            is_board(self@),
    {
        proof {
            use_type_invariant(self);
        }
        self.h
    }

    /// Whether the cell at `(x, y)` is alive, or `IndexError` if there is no
    /// such cell.
    pub fn cell_state(&self, x: usize, y: usize) -> (state: Result<bool, GridError>)
        ensures
            is_board(self@),
            x < columns(self@) && y < rows(self@) ==> state == Ok::<bool, GridError>(
                self@[x as int][y as int],
            ),
            !(x < columns(self@) && y < rows(self@)) ==> state == Err::<bool, GridError>(
                GridError::IndexError,
            ),
    {
        proof {
            use_type_invariant(self);
        }
        if x < self.w && y < self.h {
            Ok(self.grid[x][y] != 0)
        } else {
            Err(GridError::IndexError)
        }
    }

    /// Makes the cell at `(x, y)` alive or dead and leaves every other cell
    /// as it was; `IndexError`, and no change, if there is no such cell.
    pub fn set_cell(&mut self, x: usize, y: usize, alive: bool) -> (done: Result<(), GridError>)
        ensures
            is_board(final(self)@),
            x < columns(old(self)@) && y < rows(old(self)@) ==> done.is_ok() && final(self)@
                == old(self)@.update(x as int, old(self)@[x as int].update(y as int, alive)),
            !(x < columns(old(self)@) && y < rows(old(self)@)) ==> done == Err::<(), GridError>(
                GridError::IndexError,
            ) && final(self)@ == old(self)@,
    {
        proof {
            use_type_invariant(&*self);
        }
        if x < self.w && y < self.h {
            store(&mut self.grid, x, y, if alive { 1 } else { 0 });
            assert(self@ =~~= old(self)@.update(
                x as int,
                old(self)@[x as int].update(y as int, alive),
            ));
            Ok(())
        } else {
            Err(GridError::IndexError)
        }
    }

    /// The number of live cells among the eight around `(x, y)`, the board
    /// taken as a torus.
    pub fn check_neighbours(&self, x: usize, y: usize) -> (alive: i32)
        requires
            x < columns(self@),
            y < rows(self@),
        ensures
            alive == live_neighbours(self@, x as int, y as int),
            0 <= alive <= 8,
    {
        proof {
            use_type_invariant(self);
        }
        let x_minus = wrap_back(x, self.w);
        let x_plus = wrap_forward(x, self.w);
        let y_minus = wrap_back(y, self.h);
        let y_plus = wrap_forward(y, self.h);
        proof {
            lemma_wrap_inside(x as int, self.w as int);
            lemma_wrap_inside(y as int, self.h as int);
            self.cell_is_occupied(x_minus, y_minus, x - 1, y - 1);
            self.cell_is_occupied(x, y_minus, x as int, y - 1);
            self.cell_is_occupied(x_plus, y_minus, x + 1, y - 1);
            self.cell_is_occupied(x_minus, y, x - 1, y as int);
            self.cell_is_occupied(x_plus, y, x + 1, y as int);
            self.cell_is_occupied(x_minus, y_plus, x - 1, y + 1);
            self.cell_is_occupied(x, y_plus, x as int, y + 1);
            self.cell_is_occupied(x_plus, y_plus, x + 1, y + 1);
        }
        self.grid[x_minus][y_minus] + self.grid[x][y_minus] + self.grid[x_plus][y_minus]
            + self.grid[x_minus][y] + self.grid[x_plus][y] + self.grid[x_minus][y_plus]
            + self.grid[x][y_plus] + self.grid[x_plus][y_plus]
    }

    /// The stored number of the cell that `(a, b)` wraps to is what the model
    /// counts for `(a, b)`.
    proof fn cell_is_occupied(&self, i: usize, j: usize, a: int, b: int)
        requires
            self.well_formed(),
            i < self.w,
            j < self.h,
            i == wrap(a, self.w as int),
            j == wrap(b, self.h as int),
        ensures
            self.grid@[i as int]@[j as int] == occupied(self@, a, b),
    {
        let c = self.grid@[i as int]@[j as int];
        assert(c == 0 || c == 1);
    }
}

} // verus!
