//! The text of one frame: the board row by row, then the control sequences
//! that take a terminal's cursor back to the first row, so that the next
//! frame is written over this one.

use vstd::prelude::*;
use vstd::string::StringExecFns;
use crate::grid::GameOfLife;
use crate::torus::{columns, rows};

verus! {

/// The character that shows a cell.
pub open spec fn glyph(alive: bool) -> char {
    if alive {
        '*'
    } else {
        '-'
    }
}

/// Row `y` of `g`, one character for each column, and a line feed.
pub open spec fn row_text(g: Seq<Seq<bool>>, y: int) -> Seq<char> {
    Seq::new(columns(g) as nat, |x: int| glyph(g[x][y])).push('\n')
}

/// The first `n` rows of `g`, from the top.
pub open spec fn rows_text(g: Seq<Seq<bool>>, n: nat) -> Seq<char>
    decreases n,
{
    if n == 0 {
        Seq::empty()
    } else {
        rows_text(g, (n - 1) as nat) + row_text(g, n - 1)
    }
}

/// The control sequence that moves the cursor one line up.
pub open spec fn cursor_up() -> Seq<char> {
    seq!['\x1b', '[', '1', 'A']
}

/// `n` times the sequence that moves the cursor one line up.
pub open spec fn rewind_text(n: nat) -> Seq<char>
    decreases n,
{
    if n == 0 {
        Seq::empty()
    } else {
        rewind_text((n - 1) as nat) + cursor_up()
    }
}

/// A whole frame of `g`: all its rows, then the cursor taken back up by as
/// many lines.
pub open spec fn frame_text(g: Seq<Seq<bool>>) -> Seq<char> {
    rows_text(g, rows(g) as nat) + rewind_text(rows(g) as nat)
}

impl GameOfLife {
    /// The frame that shows the board as it stands.
    pub fn frame(&self) -> (text: String)
        ensures
            text@ == frame_text(self@),
    {
        let w = self.width();
        let h = self.height();
        let mut text = String::new();
        let mut y: usize = 0;
        while y < h
            invariant
                y <= h,
                columns(self@) == w,
                rows(self@) == h,
                text@ == rows_text(self@, y as nat),
            decreases h - y,
        {
            let ghost before = text@;
            let mut x: usize = 0;
            while x < w
                invariant
                    x <= w,
                    y < h,
                    columns(self@) == w,
                    rows(self@) == h,
                    text@ == before + Seq::new(x as nat, |i: int| glyph(self@[i][y as int])),
                decreases w - x,
            {
                proof {
                    reveal_strlit("*");
                    reveal_strlit("-");
                }
                if self.is_alive(x, y) {
                    text.append("*");
                } else {
                    text.append("-");
                }
                x += 1;
                assert(text@ =~= before + Seq::new(x as nat, |i: int| glyph(self@[i][y as int])));
            }
            proof {
                reveal_strlit("\n");
            }
            text.append("\n");
            y += 1;
            assert(text@ =~= rows_text(self@, y as nat));
        }
        let ghost shown = text@;
        let mut k: usize = 0;
        while k < h
            invariant
                k <= h,
                text@ == shown + rewind_text(k as nat),
            decreases h - k,
        {
            proof {
                reveal_strlit("\x1b[1A");
            }
            text.append("\x1b[1A");
            k += 1;
            assert(text@ =~= shown + rewind_text(k as nat));
        }
        text
    }
}

} // verus!
