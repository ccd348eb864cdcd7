//! The mathematical model of a toroidal Life board and the B3/S23 rule.
//!
//! A board is a `Seq<Seq<bool>>` indexed first by column `x`, then by row `y`.
use vstd::prelude::*;

verus! {

/// `g` is a board of `w` columns and `h` rows, both positive.
pub open spec fn is_board(g: Seq<Seq<bool>>, w: int, h: int) -> bool {
    &&& w > 0
    &&& h > 0
    &&& g.len() == w
    &&& forall|i: int| 0 <= i < w ==> (#[trigger] g[i]).len() == h
}

/// The board of `w` columns and `h` rows with every cell dead.
pub open spec fn blank(w: int, h: int) -> Seq<Seq<bool>> {
    Seq::new(w as nat, |i: int| Seq::new(h as nat, |j: int| false))
}

/// `g` with the cell `(x, y)` set to `alive`; unchanged when `(x, y)` lies off the board.
pub open spec fn set_at(g: Seq<Seq<bool>>, x: int, y: int, alive: bool) -> Seq<Seq<bool>> {
    if 0 <= x < g.len() && 0 <= y < g[x].len() {
        g.update(x, g[x].update(y, alive))
    } else {
        g
    }
}

/// The cell `(x, y)`, read as false off the board.
pub open spec fn cell_at(g: Seq<Seq<bool>>, x: int, y: int) -> bool {
    0 <= x < g.len() && 0 <= y < g[x].len() && g[x][y]
}

/// Coordinate `c` moved by `d` on a ring of `n` positions.
pub open spec fn wrap(c: int, d: int, n: int) -> int {
    (c + d + n) % n
}

pub open spec fn live(g: Seq<Seq<bool>>, x: int, y: int) -> int {
    if g[x][y] {
        1
    } else {
        0
    }
}

/// Number of live cells among the eight toroidal neighbours of `(x, y)`.
pub open spec fn neighbor_count(g: Seq<Seq<bool>>, w: int, h: int, x: int, y: int) -> int {
    live(g, wrap(x, -1, w), wrap(y, -1, h)) + live(g, wrap(x, -1, w), wrap(y, 0, h)) + live(
        g,
        wrap(x, -1, w),
        wrap(y, 1, h),
    ) + live(g, wrap(x, 0, w), wrap(y, -1, h)) + live(g, wrap(x, 0, w), wrap(y, 1, h)) + live(
        g,
        wrap(x, 1, w),
        wrap(y, -1, h),
    ) + live(g, wrap(x, 1, w), wrap(y, 0, h)) + live(g, wrap(x, 1, w), wrap(y, 1, h))
}

/// The B3/S23 rule: state of a cell in the next generation.
pub open spec fn next_state(alive: bool, n: int) -> bool {
    (alive && (n == 2 || n == 3)) || (!alive && n == 3)
}

/// One synchronous generation of the whole board.
pub open spec fn step(g: Seq<Seq<bool>>, w: int, h: int) -> Seq<Seq<bool>> {
    Seq::new(
        w as nat,
        |x: int| Seq::new(h as nat, |y: int| next_state(g[x][y], neighbor_count(g, w, h, x, y))),
    )
}

/// `n` generations of the board.
pub open spec fn steps(g: Seq<Seq<bool>>, w: int, h: int, n: nat) -> Seq<Seq<bool>>
    decreases n,
{
    if n == 0 {
        g
    } else {
        step(steps(g, w, h, (n - 1) as nat), w, h)
    }
}

/// For an on-board coordinate, the wrapped neighbour coordinate without `%`.
pub proof fn lemma_wrap_step(c: int, d: int, n: int)
    requires
        0 <= c < n,
        -1 <= d <= 1,
    ensures
        wrap(c, d, n) == if c + d < 0 {
            c + d + n
        } else if c + d >= n {
            c + d - n
        } else {
            c + d
        },
        0 <= wrap(c, d, n) < n,
{
    let s = c + d + n;
    if c + d < 0 {
        vstd::arithmetic::div_mod::lemma_fundamental_div_mod_converse_mod(s, n, 0, s);
    } else if c + d >= n {
        vstd::arithmetic::div_mod::lemma_fundamental_div_mod_converse_mod(s, n, 2, 0);
    } else {
        vstd::arithmetic::div_mod::lemma_fundamental_div_mod_converse_mod(s, n, 1, c + d);
    }
}

/// Decides the next state of one cell from its state and its live neighbour count.
pub fn rule(alive: bool, neighbors: u8) -> (r: bool)
    ensures
        r == next_state(alive, neighbors as int),
{
    if alive {
        neighbors == 2 || neighbors == 3
    } else {
        neighbors == 3
    }
}

} // verus!
