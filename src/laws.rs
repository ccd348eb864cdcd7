//! Properties of the model that hold for every board.
use vstd::prelude::*;

use crate::patterns::{demo_layout, layout_placements, placed, stamped};
use crate::rules::{
    blank, is_board, lemma_wrap_step, neighbor_count, next_state, set_at, step, steps, wrap,
};

verus! {

/// The board wraps at its edges: a live cell in the last column counts as a
/// neighbour of the cell in the first column of the same row, and the other way
/// round; likewise for the first and last rows, and the far corner `(w - 1, h - 1)`
/// counts as a neighbour of `(0, 0)`.
pub proof fn lemma_toroidal_wrap(g: Seq<Seq<bool>>, w: int, h: int)
    requires
        is_board(g, w, h),
    ensures
        g[w - 1][h - 1] ==> neighbor_count(g, w, h, 0, 0) >= 1,
        g[0][0] ==> neighbor_count(g, w, h, w - 1, h - 1) >= 1,
        g[0][h - 1] ==> neighbor_count(g, w, h, w - 1, 0) >= 1,
        g[w - 1][0] ==> neighbor_count(g, w, h, 0, h - 1) >= 1,
        forall|y: int|
            0 <= y < h ==> (#[trigger] g[w - 1][y] ==> neighbor_count(g, w, h, 0, y) >= 1),
        forall|y: int|
            0 <= y < h ==> (#[trigger] g[0][y] ==> neighbor_count(g, w, h, w - 1, y) >= 1),
        forall|x: int|
            0 <= x < w ==> (#[trigger] g[x][h - 1] ==> neighbor_count(g, w, h, x, 0) >= 1),
        forall|x: int|
            0 <= x < w ==> (#[trigger] g[x][0] ==> neighbor_count(g, w, h, x, h - 1) >= 1),
{
    lemma_wrap_step(0, -1, w);
    lemma_wrap_step(0, -1, h);
    lemma_wrap_step(w - 1, 1, w);
    lemma_wrap_step(h - 1, 1, h);
    assert forall|y: int| 0 <= y < h implies wrap(y, 0, h) == y by {
        lemma_wrap_step(y, 0, h);
    }
    assert forall|x: int| 0 <= x < w implies wrap(x, 0, w) == x by {
        lemma_wrap_step(x, 0, w);
    }
}

/// The B3/S23 rule: a live cell with fewer than two or more than three live
/// neighbours dies, one with two or three survives; a dead cell with exactly three
/// live neighbours is born, any other stays dead. Every cell of the next
/// generation follows it.
pub proof fn lemma_rule(g: Seq<Seq<bool>>, w: int, h: int)
    requires
        is_board(g, w, h),
    ensures
        forall|n: int| n <= 1 ==> !#[trigger] next_state(true, n),
        next_state(true, 2) && next_state(true, 3),
        forall|n: int| n >= 4 ==> !#[trigger] next_state(true, n),
        next_state(false, 3),
        forall|n: int| n != 3 ==> !#[trigger] next_state(false, n),
        is_board(step(g, w, h), w, h),
        forall|x: int, y: int|
            0 <= x < w && 0 <= y < h ==> #[trigger] step(g, w, h)[x][y] == next_state(
                g[x][y],
                neighbor_count(g, w, h, x, y),
            ),
{
}

/// A write to a coordinate off the board leaves every cell, and the board's
/// dimensions, as they were.
pub proof fn lemma_out_of_range_write(g: Seq<Seq<bool>>, w: int, h: int, x: int, y: int, alive: bool)
    requires
        is_board(g, w, h),
        !(0 <= x < w && 0 <= y < h),
    ensures
        set_at(g, x, y, alive) == g,
{
}

/// Generations of a board are boards of the same dimensions.
pub proof fn lemma_steps_board(g: Seq<Seq<bool>>, w: int, h: int, n: nat)
    requires
        is_board(g, w, h),
    ensures
        is_board(steps(g, w, h, n), w, h),
    decreases n,
{
    if n > 0 {
        lemma_steps_board(g, w, h, (n - 1) as nat);
    }
}

/// Two boards of the same dimensions seeded with the demonstration layout hold
/// the same live cells, and still do after any number `n` of generations.
pub proof fn lemma_demo_deterministic(a: Seq<Seq<bool>>, b: Seq<Seq<bool>>, w: int, h: int, n: nat)
    requires
        w > 0,
        h > 0,
        a == demo_layout(w, h),
        b == demo_layout(w, h),
    ensures
        is_board(a, w, h),
        a == b,
        is_board(steps(a, w, h, n), w, h),
        steps(a, w, h, n) == steps(b, w, h, n),
{
    assert(is_board(placed(blank(w, h), layout_placements(w, h)), w, h));
    lemma_steps_board(a, w, h, n);
}

/// Stamping a pattern twice at the same anchor has the effect of stamping it once.
pub proof fn lemma_stamp_idempotent(g: Seq<Seq<bool>>, offs: Seq<(usize, usize)>, ax: int, ay: int)
    ensures
        stamped(stamped(g, offs, ax, ay), offs, ax, ay) == stamped(g, offs, ax, ay),
{
    assert(stamped(stamped(g, offs, ax, ay), offs, ax, ay) =~~= stamped(g, offs, ax, ay));
}

} // verus!
