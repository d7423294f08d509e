//! The mathematical model of the automaton: what a grid is, how indices
//! wrap around the torus, how many live neighbors a cell has, and what one
//! synchronous generation step produces.

use vstd::arithmetic::div_mod::{
    lemma_fundamental_div_mod, lemma_fundamental_div_mod_converse, lemma_mod_add_multiples_vanish,
    lemma_mod_bound, lemma_mod_self_0, lemma_small_mod,
};
use vstd::prelude::*;

verus! {

/// The state of one cell: dead or alive.
#[derive(Clone, Copy, Debug, PartialEq, Eq, Structural)]
pub enum Cell {
    Dead,
    Alive,
}

/// 1 for a live cell, 0 for a dead one.
pub open spec fn cell_live(c: Cell) -> nat {
    if c is Alive {
        1
    } else {
        0
    }
}

/// A row or column index moved one step back, wrapping toroidally:
/// `(x + n - 1) % n`.
pub open spec fn wrap_dec(x: int, n: int) -> int {
    (x + n - 1) % n
}

/// A row or column index moved one step forward, wrapping toroidally:
/// `(x + 1) % n`.
pub open spec fn wrap_inc(x: int, n: int) -> int {
    (x + 1) % n
}

/// The live value (0 or 1) of the cell at `(row, col)` in a row-major grid
/// of width `w`.
pub open spec fn live_at(s: Seq<Cell>, w: int, row: int, col: int) -> nat {
    cell_live(s[row * w + col])
}

/// The number of live cells among the eight toroidally wrapped neighbors of
/// `(row, col)` in a row-major `w x h` grid. On grids narrower than three
/// cells in a direction the wrapped positions coincide and a cell is counted
/// once per position, as the modular rule dictates.
pub open spec fn neighbor_count(s: Seq<Cell>, w: int, h: int, row: int, col: int) -> nat {
    live_at(s, w, wrap_dec(row, h), wrap_dec(col, w)) + live_at(s, w, wrap_dec(row, h), col)
        + live_at(s, w, wrap_dec(row, h), wrap_inc(col, w)) + live_at(s, w, row, wrap_dec(col, w))
        + live_at(s, w, row, wrap_inc(col, w)) + live_at(s, w, wrap_inc(row, h), wrap_dec(col, w))
        + live_at(s, w, wrap_inc(row, h), col) + live_at(s, w, wrap_inc(row, h), wrap_inc(col, w))
}

/// The B3/S23 transition rule for one cell: a live cell survives with two or
/// three live neighbors, a dead cell is born with exactly three, every other
/// cell is dead in the next generation.
pub open spec fn next_cell(c: Cell, live_neighbors: nat) -> Cell {
    match c {
        Cell::Alive => if live_neighbors == 2 || live_neighbors == 3 {
            Cell::Alive
        } else {
            Cell::Dead
        },
        Cell::Dead => if live_neighbors == 3 {
            Cell::Alive
        } else {
            Cell::Dead
        },
    }
}

/// One synchronous generation step of a whole row-major `w x h` grid: every
/// cell of the result is computed from the argument grid alone.
pub open spec fn step(s: Seq<Cell>, w: int, h: int) -> Seq<Cell> {
    Seq::new((w * h) as nat, |k: int| next_cell(s[k], neighbor_count(s, w, h, k / w, k % w)))
}

/// The grid seeded from per-cell draw outcomes: cell `i` is alive exactly
/// when draw `i` came out alive.
pub open spec fn seed_cells(alive: Seq<bool>) -> Seq<Cell> {
    alive.map(|i: int, a: bool| if a {
        Cell::Alive
    } else {
        Cell::Dead
    })
}

/// The glyph that renders one cell.
pub open spec fn glyph(c: Cell) -> char {
    if c is Alive {
        '◼'
    } else {
        '◻'
    }
}

/// The text rendering of a row-major `w x h` grid: `h` lines, each of `w`
/// glyphs followed by a newline, top row first.
pub open spec fn render_chars(s: Seq<Cell>, w: int, h: int) -> Seq<char> {
    Seq::new(
        (h * (w + 1)) as nat,
        |k: int| if k % (w + 1) == w {
            '\n'
        } else {
            glyph(s[(k / (w + 1)) * w + k % (w + 1)])
        },
    )
}

/// Wrapping one step back from an in-range index lands one row (or column)
/// earlier, except at the edge, where it lands on the opposite edge.
pub proof fn lemma_wrap_dec(x: int, n: int)
    requires
        0 <= x < n,
    ensures
        wrap_dec(x, n) == if x == 0 {
            n - 1
        } else {
            x - 1
        },
{
    if x == 0 {
        lemma_small_mod((n - 1) as nat, n as nat);
    } else {
        lemma_mod_add_multiples_vanish(x - 1, n);
        lemma_small_mod((x - 1) as nat, n as nat);
    }
}

/// Wrapping one step forward from an in-range index lands one row (or
/// column) later, except at the edge, where it lands on the opposite edge.
pub proof fn lemma_wrap_inc(x: int, n: int)
    requires
        0 <= x < n,
    ensures
        wrap_inc(x, n) == if x == n - 1 {
            0
        } else {
            x + 1
        },
{
    if x == n - 1 {
        lemma_mod_self_0(n);
    } else {
        lemma_small_mod((x + 1) as nat, n as nat);
    }
}

/// The row-major index of an in-range position is in range for the grid,
/// and dividing it by the width recovers the position.
pub proof fn lemma_flat_index(w: int, h: int, row: int, col: int)
    requires
        0 < w,
        0 < h,
        0 <= row < h,
        0 <= col < w,
    ensures
        0 <= row * w + col < w * h,
        (row * w + col) / w == row,
        (row * w + col) % w == col,
{
    assert(0 <= row * w + col < w * h) by (nonlinear_arith)
        requires
            0 < w,
            0 < h,
            0 <= row < h,
            0 <= col < w,
    ;
    lemma_fundamental_div_mod_converse(row * w + col, w, row, col);
}

/// Every in-range row-major index of a `w x h` grid decomposes into an
/// in-range row and column.
pub proof fn lemma_index_decomposition(w: int, h: int, k: int)
    requires
        0 < w,
        0 < h,
        0 <= k < w * h,
    ensures
        0 <= k / w < h,
        0 <= k % w < w,
        k == (k / w) * w + k % w,
{
    lemma_fundamental_div_mod(k, w);
    lemma_mod_bound(k, w);
    assert((k / w) * w == w * (k / w)) by (nonlinear_arith);
    assert(0 <= k / w < h) by (nonlinear_arith)
        requires
            0 < w,
            0 < h,
            0 <= k < w * h,
            k == w * (k / w) + k % w,
            0 <= k % w < w,
    ;
}

} // verus!
