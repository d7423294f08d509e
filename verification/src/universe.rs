//! The simulation state and its operations: construction from per-cell seed
//! draws, dimension queries, a read-only view of the cell buffer, the
//! synchronous generation step, and a text rendering.

use crate::model::{
    lemma_flat_index, lemma_wrap_dec, lemma_wrap_inc, live_at, neighbor_count, render_chars,
    seed_cells, step, Cell,
};
use vstd::prelude::*;
use vstd::string::StringExecFns;

verus! {

/// The product of two 32-bit dimensions fits in 64 bits.
proof fn lemma_dims_product_fits(w: int, h: int)
    requires
        0 <= w < 0x1_0000_0000,
        0 <= h < 0x1_0000_0000,
    ensures
        0 <= w * h < 0x1_0000_0000_0000_0000,
{
    assert(0 <= w * h < 0x1_0000_0000_0000_0000) by (nonlinear_arith)
        requires
            0 <= w < 0x1_0000_0000,
            0 <= h < 0x1_0000_0000,
    ;
}

/// Why a construction call was refused.
#[derive(Clone, Copy, Debug, PartialEq, Eq, Structural)]
pub enum CreationError {
    /// The width or the height was zero; a zero dimension would make the
    /// modular wraparound in neighbor counting undefined.
    ZeroDimension,
    /// The seed did not hold exactly `width * height` draws.
    SeedLength,
}

/// The whole simulation state: fixed dimensions and the current
/// generation's cells, row-major.
pub struct Universe {
    width: u32,
    height: u32,
    cells: Vec<Cell>,
}

impl Universe {
    /// The grid width, as a mathematical integer.
    pub closed spec fn cols(self) -> int {
        self.width as int
    }

    /// The grid height, as a mathematical integer.
    pub closed spec fn rows(self) -> int {
        self.height as int
    }

    /// The current generation, row-major.
    pub closed spec fn grid(self) -> Seq<Cell> {
        self.cells@
    }

    /// Well-formedness: both dimensions are positive and the buffer holds
    /// exactly one cell per grid position.
    pub open spec fn wf(self) -> bool {
        &&& 0 < self.cols()
        &&& 0 < self.rows()
        &&& self.grid().len() == self.cols() * self.rows()
    }

    /// Builds a universe of the given dimensions, seeding cell `i` alive
    /// exactly when draw `i` of `alive` is true. Construction fails on a
    /// zero dimension, and on a seed that does not cover the grid.
    pub fn new(width: u32, height: u32, alive: Vec<bool>) -> (result: Result<
        Universe,
        CreationError,
    >)
        ensures
            result is Ok <==> (width > 0 && height > 0 && alive@.len() == width * height),
            result matches Ok(u) ==> u.wf() && u.cols() == width && u.rows() == height
                && u.grid() == seed_cells(alive@),
            result matches Err(e) ==> e == (if width == 0 || height == 0 {
                CreationError::ZeroDimension
            } else {
                CreationError::SeedLength
            }),
    {
        if width == 0 || height == 0 {
            return Err(CreationError::ZeroDimension);
        }
        proof {
            lemma_dims_product_fits(width as int, height as int);
        }
        let total: u64 = (width as u64) * (height as u64);
        if (alive.len() as u64) != total {
            return Err(CreationError::SeedLength);
        }
        let mut cells: Vec<Cell> = Vec::new();
        let mut k: usize = 0;
        while k < alive.len()
            invariant
                k <= alive@.len(),
                cells@.len() == k,
                forall|m: int| 0 <= m < k ==> cells@[m] == seed_cells(alive@)[m],
            decreases alive@.len() - k,
        {
            if alive[k] {
                cells.push(Cell::Alive);
            } else {
                cells.push(Cell::Dead);
            }
            k = k + 1;
        }
        proof {
            assert(cells@ =~= seed_cells(alive@));
        }
        Ok(Universe { width, height, cells })
    }

    /// The grid width.
    pub fn width(&self) -> (w: u32)
        ensures
            w == self.cols(),
    {
        self.width
    }

    /// The grid height.
    pub fn height(&self) -> (h: u32)
        ensures
            h == self.rows(),
    {
        self.height
    }

    /// A read-only view of the current generation's cell buffer, row-major.
    /// The view is transient: it must be fetched again after every `tick`.
    pub fn cells(&self) -> (cells: &Vec<Cell>)
        ensures
            cells@ == self.grid(),
    {
        &self.cells
    }

    /// Whether the instance is well formed. Construction only ever hands
    /// out well-formed universes; this check lets an unverified caller
    /// establish the precondition of the other methods at run time.
    pub fn well_formed(&self) -> (b: bool)
        ensures
            b == self.wf(),
    {
        proof {
            lemma_dims_product_fits(self.width as int, self.height as int);
        }
        self.width > 0 && self.height > 0 && (self.cells.len() as u64) == (self.width as u64) * (
        self.height as u64)
    }

    /// The row-major buffer index of an in-range position.
    fn get_index(&self, row: u32, column: u32) -> (idx: usize)
        requires
            self.wf(),
            row < self.rows(),
            column < self.cols(),
        ensures
            idx == row * self.cols() + column,
            idx < self.grid().len(),
    {
        proof {
            lemma_flat_index(self.cols(), self.rows(), row as int, column as int);
            // The buffer is a real vector, so its length, and with it every
            // in-range index, fits in usize.
            assert(self.cells.len() == self.grid().len());
        }
        (row as usize) * (self.width as usize) + (column as usize)
    }

    /// The live value (0 or 1) of the cell at an in-range position.
    fn cell_value(&self, row: u32, column: u32) -> (v: u8)
        requires
            self.wf(),
            row < self.rows(),
            column < self.cols(),
        ensures
            v == live_at(self.grid(), self.cols(), row as int, column as int),
    {
        let idx = self.get_index(row, column);
        if self.cells[idx] == Cell::Alive {
            1
        } else {
            0
        }
    }

    /// The number of live cells among the eight toroidally wrapped
    /// neighbors of an in-range position.
    pub fn live_neighbor_count(&self, row: u32, column: u32) -> (count: u8)
        requires
            self.wf(),
            row < self.rows(),
            column < self.cols(),
        ensures
            count == neighbor_count(self.grid(), self.cols(), self.rows(), row as int, column as int),
    {
        let north = if row == 0 {
            self.height - 1
        } else {
            row - 1
        };
        let south = if row + 1 == self.height {
            0
        } else {
            row + 1
        };
        let west = if column == 0 {
            self.width - 1
        } else {
            column - 1
        };
        let east = if column + 1 == self.width {
            0
        } else {
            column + 1
        };
        proof {
            lemma_wrap_dec(row as int, self.rows());
            lemma_wrap_inc(row as int, self.rows());
            lemma_wrap_dec(column as int, self.cols());
            lemma_wrap_inc(column as int, self.cols());
        }
        self.cell_value(north, west) + self.cell_value(north, column) + self.cell_value(north, east)
            + self.cell_value(row, west) + self.cell_value(row, east) + self.cell_value(
            south,
            west,
        ) + self.cell_value(south, column) + self.cell_value(south, east)
    }

    /// Advances the simulation by one generation: every cell of the new
    /// generation is computed from the old generation alone, and the buffer
    /// is replaced in one piece once the whole generation is computed.
    pub fn tick(&mut self)
        requires
            old(self).wf(),
        ensures
            final(self).wf(),
            final(self).cols() == old(self).cols(),
            final(self).rows() == old(self).rows(),
            final(self).grid() == step(old(self).grid(), old(self).cols(), old(self).rows()),
    {
        let w = self.width;
        let h = self.height;
        let ghost s = self.grid();
        let ghost wi = self.cols();
        let ghost hi = self.rows();
        let mut next: Vec<Cell> = Vec::new();
        let mut r: u32 = 0;
        while r < h
            invariant
                self.wf(),
                w == self.width,
                h == self.height,
                s == self.grid(),
                wi == self.cols(),
                hi == self.rows(),
                r <= h,
                next@.len() == r * wi,
                forall|m: int| 0 <= m < next@.len() ==> next@[m] == step(s, wi, hi)[m],
            decreases hi - r,
        {
            let mut c: u32 = 0;
            while c < w
                invariant
                    self.wf(),
                    w == self.width,
                    h == self.height,
                    s == self.grid(),
                    wi == self.cols(),
                    hi == self.rows(),
                    r < h,
                    c <= w,
                    next@.len() == r * wi + c,
                    forall|m: int| 0 <= m < next@.len() ==> next@[m] == step(s, wi, hi)[m],
                decreases wi - c,
            {
                let neighbors = self.live_neighbor_count(r, c);
                let idx = self.get_index(r, c);
                let current = self.cells[idx];
                let updated = if current == Cell::Alive {
                    if neighbors == 2 || neighbors == 3 {
                        Cell::Alive
                    } else {
                        Cell::Dead
                    }
                } else {
                    if neighbors == 3 {
                        Cell::Alive
                    } else {
                        Cell::Dead
                    }
                };
                next.push(updated);
                proof {
                    lemma_flat_index(wi, hi, r as int, c as int);
                    assert(next@[r * wi + c] == step(s, wi, hi)[r * wi + c]);
                }
                c = c + 1;
            }
            proof {
                assert((r as int + 1) * wi == r as int * wi + wi) by (nonlinear_arith);
            }
            r = r + 1;
        }
        proof {
            assert(hi * wi == wi * hi) by (nonlinear_arith);
            assert(next@ =~= step(s, wi, hi));
        }
        self.cells = next;
    }

    /// A text snapshot of the current generation: one line per row, top row
    /// first, one glyph per cell, every line newline-terminated.
    pub fn render(&self) -> (text: String)
        requires
            self.wf(),
        ensures
            text@ == render_chars(self.grid(), self.cols(), self.rows()),
    {
        let w = self.width;
        let h = self.height;
        let ghost s = self.grid();
        let ghost wi = self.cols();
        let ghost hi = self.rows();
        let ghost lw = wi + 1;
        proof {
            reveal_strlit("◼");
            reveal_strlit("◻");
            reveal_strlit("\n");
        }
        let mut text = String::new();
        let mut r: u32 = 0;
        while r < h
            invariant
                self.wf(),
                w == self.width,
                h == self.height,
                s == self.grid(),
                wi == self.cols(),
                hi == self.rows(),
                lw == wi + 1,
                "◼"@ == seq!['◼'],
                "◻"@ == seq!['◻'],
                "\n"@ == seq!['\n'],
                r <= h,
                text@.len() == r * lw,
                forall|m: int| 0 <= m < text@.len() ==> text@[m] == render_chars(s, wi, hi)[m],
            decreases hi - r,
        {
            let mut c: u32 = 0;
            while c < w
                invariant
                    self.wf(),
                    w == self.width,
                    h == self.height,
                    s == self.grid(),
                    wi == self.cols(),
                    hi == self.rows(),
                    lw == wi + 1,
                    "◼"@ == seq!['◼'],
                    "◻"@ == seq!['◻'],
                    r < h,
                    c <= w,
                    text@.len() == r * lw + c,
                    forall|m: int| 0 <= m < text@.len() ==> text@[m] == render_chars(s, wi, hi)[m],
                decreases wi - c,
            {
                let idx = self.get_index(r, c);
                if self.cells[idx] == Cell::Alive {
                    text.append("◼");
                } else {
                    text.append("◻");
                }
                proof {
                    lemma_flat_index(lw, hi, r as int, c as int);
                    lemma_flat_index(wi, hi, r as int, c as int);
                    assert(text@[r * lw + c] == render_chars(s, wi, hi)[r * lw + c]);
                }
                c = c + 1;
            }
            text.append("\n");
            proof {
                lemma_flat_index(lw, hi, r as int, wi);
                assert(text@[r * lw + wi] == render_chars(s, wi, hi)[r * lw + wi]);
                assert((r as int + 1) * lw == r as int * lw + lw) by (nonlinear_arith);
            }
            r = r + 1;
        }
        proof {
            assert(text@ =~= render_chars(s, wi, hi));
        }
        text
    }
}

} // verus!
