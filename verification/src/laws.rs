//! Laws of the automaton, stated over the model and proved once and for
//! all: the wraparound neighborhood of the corner cell, uniform seeding,
//! determinism of the step, the stability of an isolated 2x2 block, and the
//! period-two oscillation of an isolated blinker.

use crate::model::{
    cell_live, lemma_flat_index, lemma_index_decomposition, lemma_wrap_dec, lemma_wrap_inc,
    neighbor_count, seed_cells, step, wrap_dec, wrap_inc, Cell,
};
use vstd::prelude::*;

verus! {

/// 1 when a position satisfies a predicate, 0 otherwise.
pub open spec fn indicator(b: bool) -> nat {
    if b {
        1
    } else {
        0
    }
}

/// The grid `s` holds exactly the pattern `p`: it covers a `w x h` torus
/// and a cell is alive precisely when its position satisfies `p`.
pub open spec fn marks_pattern(s: Seq<Cell>, w: int, h: int, p: spec_fn(int, int) -> bool) -> bool {
    &&& s.len() == w * h
    &&& forall|k: int| 0 <= k < s.len() ==> ((#[trigger] s[k]) is Alive <==> p(k / w, k % w))
}

/// Law: at the corner `(0, 0)` of a `w x h` torus the eight neighbors are
/// the wrapped cells `(h-1, w-1)`, `(h-1, 0)`, `(h-1, 1)`, `(0, w-1)`,
/// `(0, 1)`, `(1, w-1)`, `(1, 0)` and `(1, 1)`: the neighbor count is the
/// sum of exactly those cells' live values.
pub proof fn lemma_corner_neighbors(s: Seq<Cell>, w: int, h: int)
    requires
        w >= 2,
        h >= 2,
        s.len() == w * h,
    ensures
        neighbor_count(s, w, h, 0, 0) == cell_live(s[(h - 1) * w + (w - 1)]) + cell_live(
            s[(h - 1) * w + 0],
        ) + cell_live(s[(h - 1) * w + 1]) + cell_live(s[0 * w + (w - 1)]) + cell_live(s[0 * w + 1])
            + cell_live(s[1 * w + (w - 1)]) + cell_live(s[1 * w + 0]) + cell_live(s[1 * w + 1]),
{
    lemma_wrap_dec(0, h);
    lemma_wrap_inc(0, h);
    lemma_wrap_dec(0, w);
    lemma_wrap_inc(0, w);
}

/// Law: when every draw of a seed came out the same way, every cell of the
/// seeded grid is in the same state: all dead for all-false draws, all
/// alive for all-true draws.
pub proof fn lemma_uniform_seed(alive: Seq<bool>, b: bool)
    requires
        forall|i: int| 0 <= i < alive.len() ==> alive[i] == b,
    ensures
        forall|i: int|
            0 <= i < alive.len() ==> #[trigger] seed_cells(alive)[i] == (if b {
                Cell::Alive
            } else {
                Cell::Dead
            }),
{
}

/// Law: the step is deterministic. No randomness enters `step`: two equal
/// generations always step to equal generations.
pub proof fn lemma_step_deterministic(a: Seq<Cell>, b: Seq<Cell>, w: int, h: int)
    requires
        a == b,
    ensures
        step(a, w, h) == step(b, w, h),
{
}

/// On a grid that holds exactly the pattern `p`, the neighbor count of any
/// cell is the number of its eight wrapped neighbor positions that satisfy
/// `p`.
proof fn lemma_neighbor_count_of_pattern(
    s: Seq<Cell>,
    w: int,
    h: int,
    p: spec_fn(int, int) -> bool,
    i: int,
    j: int,
)
    requires
        0 < w,
        0 < h,
        marks_pattern(s, w, h, p),
        0 <= i < h,
        0 <= j < w,
    ensures
        neighbor_count(s, w, h, i, j) == indicator(p(wrap_dec(i, h), wrap_dec(j, w))) + indicator(
            p(wrap_dec(i, h), j),
        ) + indicator(p(wrap_dec(i, h), wrap_inc(j, w))) + indicator(p(i, wrap_dec(j, w)))
            + indicator(p(i, wrap_inc(j, w))) + indicator(p(wrap_inc(i, h), wrap_dec(j, w)))
            + indicator(p(wrap_inc(i, h), j)) + indicator(p(wrap_inc(i, h), wrap_inc(j, w))),
{
    lemma_wrap_dec(i, h);
    lemma_wrap_inc(i, h);
    lemma_wrap_dec(j, w);
    lemma_wrap_inc(j, w);
    lemma_flat_index(w, h, wrap_dec(i, h), wrap_dec(j, w));
    lemma_flat_index(w, h, wrap_dec(i, h), j);
    lemma_flat_index(w, h, wrap_dec(i, h), wrap_inc(j, w));
    lemma_flat_index(w, h, i, wrap_dec(j, w));
    lemma_flat_index(w, h, i, wrap_inc(j, w));
    lemma_flat_index(w, h, wrap_inc(i, h), wrap_dec(j, w));
    lemma_flat_index(w, h, wrap_inc(i, h), j);
    lemma_flat_index(w, h, wrap_inc(i, h), wrap_inc(j, w));
}

/// The positions of the 2x2 block whose top-left cell is `(r, c)`.
pub open spec fn block_at(r: int, c: int) -> spec_fn(int, int) -> bool {
    |i: int, j: int| (i == r || i == r + 1) && (j == c || j == c + 1)
}

/// Law: a 2x2 block of live cells surrounded by dead cells is unchanged by
/// one tick: each block cell has exactly three live neighbors and survives,
/// and no dead cell has exactly three. The block sits away from the edges,
/// so the wraparound brings no interference.
pub proof fn lemma_block_stable(s: Seq<Cell>, w: int, h: int, r: int, c: int)
    requires
        w >= 4,
        h >= 4,
        1 <= r,
        r + 2 < h,
        1 <= c,
        c + 2 < w,
        marks_pattern(s, w, h, block_at(r, c)),
    ensures
        step(s, w, h) == s,
{
    let p = block_at(r, c);
    assert forall|k: int| 0 <= k < w * h implies #[trigger] step(s, w, h)[k] == s[k] by {
        lemma_index_decomposition(w, h, k);
        let i = k / w;
        let j = k % w;
        lemma_neighbor_count_of_pattern(s, w, h, p, i, j);
        lemma_wrap_dec(i, h);
        lemma_wrap_inc(i, h);
        lemma_wrap_dec(j, w);
        lemma_wrap_inc(j, w);
    }
    assert(step(s, w, h) =~= s);
}

/// The positions of the horizontal blinker centered at `(r, c)`.
pub open spec fn horizontal_blinker_at(r: int, c: int) -> spec_fn(int, int) -> bool {
    |i: int, j: int| i == r && (j == c - 1 || j == c || j == c + 1)
}

/// The positions of the vertical blinker centered at `(r, c)`.
pub open spec fn vertical_blinker_at(r: int, c: int) -> spec_fn(int, int) -> bool {
    |i: int, j: int| j == c && (i == r - 1 || i == r || i == r + 1)
}

/// Law: one tick turns an isolated horizontal blinker into the vertical
/// blinker with the same center. The blinker sits away from the edges, so
/// the wraparound brings no interference.
pub proof fn lemma_blinker_horizontal_to_vertical(s: Seq<Cell>, w: int, h: int, r: int, c: int)
    requires
        2 <= r,
        r + 2 < h,
        2 <= c,
        c + 2 < w,
        marks_pattern(s, w, h, horizontal_blinker_at(r, c)),
    ensures
        marks_pattern(step(s, w, h), w, h, vertical_blinker_at(r, c)),
{
    let p = horizontal_blinker_at(r, c);
    let q = vertical_blinker_at(r, c);
    assert forall|k: int|
        0 <= k < w * h implies ((#[trigger] step(s, w, h)[k]) is Alive <==> q(k / w, k % w)) by {
        lemma_index_decomposition(w, h, k);
        let i = k / w;
        let j = k % w;
        lemma_neighbor_count_of_pattern(s, w, h, p, i, j);
        lemma_wrap_dec(i, h);
        lemma_wrap_inc(i, h);
        lemma_wrap_dec(j, w);
        lemma_wrap_inc(j, w);
    }
}

/// Law: one tick turns an isolated vertical blinker into the horizontal
/// blinker with the same center. The blinker sits away from the edges, so
/// the wraparound brings no interference.
pub proof fn lemma_blinker_vertical_to_horizontal(s: Seq<Cell>, w: int, h: int, r: int, c: int)
    requires
        2 <= r,
        r + 2 < h,
        2 <= c,
        c + 2 < w,
        marks_pattern(s, w, h, vertical_blinker_at(r, c)),
    ensures
        marks_pattern(step(s, w, h), w, h, horizontal_blinker_at(r, c)),
{
    let p = vertical_blinker_at(r, c);
    let q = horizontal_blinker_at(r, c);
    assert forall|k: int|
        0 <= k < w * h implies ((#[trigger] step(s, w, h)[k]) is Alive <==> q(k / w, k % w)) by {
        lemma_index_decomposition(w, h, k);
        let i = k / w;
        let j = k % w;
        lemma_neighbor_count_of_pattern(s, w, h, p, i, j);
        lemma_wrap_dec(i, h);
        lemma_wrap_inc(i, h);
        lemma_wrap_dec(j, w);
        lemma_wrap_inc(j, w);
    }
}

/// Law: an isolated blinker oscillates with period two: one tick turns the
/// horizontal line into the vertical one, and a second tick restores the
/// starting grid exactly.
pub proof fn lemma_blinker_period_two(s: Seq<Cell>, w: int, h: int, r: int, c: int)
    requires
        2 <= r,
        r + 2 < h,
        2 <= c,
        c + 2 < w,
        marks_pattern(s, w, h, horizontal_blinker_at(r, c)),
    ensures
        marks_pattern(step(s, w, h), w, h, vertical_blinker_at(r, c)),
        step(step(s, w, h), w, h) == s,
{
    lemma_blinker_horizontal_to_vertical(s, w, h, r, c);
    lemma_blinker_vertical_to_horizontal(step(s, w, h), w, h, r, c);
    let t = step(step(s, w, h), w, h);
    assert forall|k: int| 0 <= k < w * h implies #[trigger] t[k] == s[k] by {
        lemma_index_decomposition(w, h, k);
        assert(t[k] is Alive <==> s[k] is Alive);
    }
    assert(t =~= s);
}

} // verus!
