//! The grid engine: a double-buffered toroidal board of cells.
use vstd::prelude::*;

use crate::rules::{
    blank, cell_at, is_board, lemma_wrap_step, live, neighbor_count, rule, set_at, step, wrap,
};

verus! {

/// A toroidal Game of Life board. `current` holds the live generation; `next` is
/// scratch space that each `update` overwrites before the two swap roles.
pub struct GameOfLife {
    width: usize,
    height: usize,
    current: Vec<Vec<bool>>,
    next: Vec<Vec<bool>>,
    pub generation: u32,
}

/// `v` holds `w` columns of `h` cells each.
spec fn shaped(v: Seq<Vec<bool>>, w: int, h: int) -> bool {
    &&& v.len() == w
    &&& forall|i: int| 0 <= i < w ==> (#[trigger] v[i])@.len() == h
}

impl View for GameOfLife {
    type V = Seq<Seq<bool>>;

    closed spec fn view(&self) -> Seq<Seq<bool>> {
        Seq::new(self.current@.len(), |i: int| self.current@[i]@)
    }
}

/// A column of `h` dead cells.
fn dead_column(h: usize) -> (r: Vec<bool>)
    ensures
        r@ == Seq::new(h as nat, |j: int| false),
{
    let mut col: Vec<bool> = Vec::with_capacity(h);
    let mut j: usize = 0;
    while j < h
        invariant
            j <= h,
            col@ == Seq::new(j as nat, |k: int| false),
        decreases h - j,
    {
        col.push(false);
        j += 1;
        assert(col@ =~= Seq::new(j as nat, |k: int| false));
    }
    col
}

/// `w` columns of `h` dead cells.
fn dead_columns(w: usize, h: usize) -> (r: Vec<Vec<bool>>)
    ensures
        r@.len() == w,
        forall|i: int| 0 <= i < w ==> (#[trigger] r@[i])@ == Seq::new(h as nat, |j: int| false),
{
    let mut cols: Vec<Vec<bool>> = Vec::with_capacity(w);
    let mut i: usize = 0;
    while i < w
        invariant
            i <= w,
            cols@.len() == i,
            forall|k: int| 0 <= k < i ==> (#[trigger] cols@[k])@ == Seq::new(h as nat, |j: int| false),
        decreases w - i,
    {
        cols.push(dead_column(h));
        i += 1;
    }
    cols
}

impl GameOfLife {
    /// Width of the board, in columns.
    pub closed spec fn spec_width(&self) -> usize {
        self.width
    }

    /// Height of the board, in rows.
    pub closed spec fn spec_height(&self) -> usize {
        self.height
    }

    /// Number of generations computed so far.
    pub closed spec fn spec_generation(&self) -> u32 {
        self.generation
    }

    /// The live buffer has the board's dimensions, which are positive.
    spec fn readable(&self) -> bool {
        &&& self.width > 0
        &&& self.height > 0
        &&& shaped(self.current@, self.width as int, self.height as int)
    }

    /// Both buffers have the board's dimensions, which are positive.
    pub closed spec fn wf(&self) -> bool {
        &&& self.width > 0
        &&& self.height > 0
        &&& shaped(self.current@, self.width as int, self.height as int)
        &&& shaped(self.next@, self.width as int, self.height as int)
    }

    /// A well-formed grid's view is a board of its dimensions.
    pub proof fn lemma_board(&self)
        requires
            self.wf(),
        ensures
            is_board(self@, self.spec_width() as int, self.spec_height() as int),
    {
    }

    /// A board of `width` columns and `height` rows, every cell dead, at generation 0.
    pub fn new(width: usize, height: usize) -> (r: GameOfLife)
        requires
            width > 0,
            height > 0,
        ensures
            r.wf(),
            r.spec_width() == width,
            r.spec_height() == height,
            r@ == blank(width as int, height as int),
            r.generation() == 0,
    {
        let current = dead_columns(width, height);
        let next = dead_columns(width, height);
        let r = GameOfLife { width, height, current, next, generation: 0 };
        assert(r@ =~= blank(width as int, height as int));
        r
    }

    /// Width of the board, in columns.
    #[verifier::when_used_as_spec(spec_width)]
    pub fn width(&self) -> (r: usize)
        ensures
            r == self.spec_width(),
    {
        self.width
    }

    /// Height of the board, in rows.
    #[verifier::when_used_as_spec(spec_height)]
    pub fn height(&self) -> (r: usize)
        ensures
            r == self.spec_height(),
    {
        self.height
    }

    /// Number of generations computed so far.
    #[verifier::when_used_as_spec(spec_generation)]
    pub fn generation(&self) -> (r: u32)
        ensures
            r == self.spec_generation(),
    {
        self.generation
    }

    /// Writes `alive` into the cell `(x, y)`; a coordinate off the board is ignored.
    pub fn set_cell(&mut self, x: usize, y: usize, alive: bool)
        requires
            old(self).wf(),
        ensures
            final(self).wf(),
            final(self).width() == old(self).width(),
            final(self).height() == old(self).height(),
            final(self).generation() == old(self).generation(),
            final(self)@ == set_at(old(self)@, x as int, y as int, alive),
    {
        if x < self.width && y < self.height {
            let mut col: Vec<bool> = Vec::new();
            self.current.set_and_swap(x, &mut col);
            col.set(y, alive);
            self.current.set_and_swap(x, &mut col);
            assert(self@ =~= set_at(old(self)@, x as int, y as int, alive));
        } else {
            assert(self@ =~= old(self)@);
        }
    }

    /// The cell `(x, y)`; false for a coordinate off the board.
    pub fn cell(&self, x: usize, y: usize) -> (r: bool)
        requires
            self.wf(),
        ensures
            r == cell_at(self@, x as int, y as int),
    {
        if x < self.width && y < self.height {
            self.current[x][y]
        } else {
            false
        }
    }

    /// Kills every cell.
    pub fn clear(&mut self)
        requires
            old(self).wf(),
        ensures
            final(self).wf(),
            final(self).width() == old(self).width(),
            final(self).height() == old(self).height(),
            final(self).generation() == old(self).generation(),
            final(self)@ == blank(old(self).width() as int, old(self).height() as int),
    {
        let mut x: usize = 0;
        while x < self.width
            invariant
                self.wf(),
                x <= self.width,
                self.width == old(self).width,
                self.height == old(self).height,
                self.generation == old(self).generation,
                forall|i: int|
                    0 <= i < x ==> (#[trigger] self.current@[i])@ == Seq::new(
                        self.height as nat,
                        |j: int| false,
                    ),
            decreases self.width - x,
        {
            let col = dead_column(self.height);
            self.current.set(x, col);
            x += 1;
        }
        assert(self@ =~= blank(self.width as int, self.height as int));
    }

    /// 1 when the on-board cell `(x, y)` is alive, else 0.
    fn live_at(&self, x: usize, y: usize) -> (r: u8)
        requires
            self.readable(),
            x < self.width,
            y < self.height,
        ensures
            r as int == live(self@, x as int, y as int),
            r <= 1,
    {
        if self.current[x][y] {
            1
        } else {
            0
        }
    }

    /// Number of live cells among the eight toroidal neighbours of `(x, y)`.
    pub fn count_neighbors(&self, x: usize, y: usize) -> (r: u8)
        requires
            self.wf(),
            x < self.width(),
            y < self.height(),
        ensures
            r as int == neighbor_count(self@, self.width() as int, self.height() as int, x as int, y as int),
            r <= 8,
    {
        self.neighbors(x, y)
    }

    fn neighbors(&self, x: usize, y: usize) -> (r: u8)
        requires
            self.readable(),
            x < self.width,
            y < self.height,
        ensures
            r as int == neighbor_count(self@, self.width as int, self.height as int, x as int, y as int),
            r <= 8,
    {
        let w = self.width;
        let h = self.height;
        let left = if x == 0 { w - 1 } else { x - 1 };
        let right = if x + 1 == w { 0 } else { x + 1 };
        let up = if y == 0 { h - 1 } else { y - 1 };
        let down = if y + 1 == h { 0 } else { y + 1 };
        proof {
            lemma_wrap_step(x as int, -1, w as int);
            lemma_wrap_step(x as int, 0, w as int);
            lemma_wrap_step(x as int, 1, w as int);
            lemma_wrap_step(y as int, -1, h as int);
            lemma_wrap_step(y as int, 0, h as int);
            lemma_wrap_step(y as int, 1, h as int);
        }
        assert(wrap(x as int, -1, w as int) == left && wrap(x as int, 0, w as int) == x);
        assert(wrap(x as int, 1, w as int) == right);
        assert(wrap(y as int, -1, h as int) == up && wrap(y as int, 0, h as int) == y);
        assert(wrap(y as int, 1, h as int) == down);
        self.live_at(left, up) + self.live_at(left, y) + self.live_at(left, down) + self.live_at(
            x,
            up,
        ) + self.live_at(x, down) + self.live_at(right, up) + self.live_at(right, y)
            + self.live_at(right, down)
    }

    /// Advances one generation: every cell takes its B3/S23 next state, computed
    /// from the previous generation alone, and the generation counter goes up by one.
    pub fn update(&mut self)
        requires
            old(self).wf(),
            old(self).generation() < u32::MAX,
        ensures
            final(self).wf(),
            final(self).width() == old(self).width(),
            final(self).height() == old(self).height(),
            final(self).generation() == old(self).generation() + 1,
            final(self)@ == step(old(self)@, old(self).width() as int, old(self).height() as int),
    {
        let w = self.width;
        let h = self.height;
        let ghost g = self@;
        let mut x: usize = 0;
        while x < w
            invariant
                self.wf(),
                x <= w,
                w == self.width,
                h == self.height,
                self.width == old(self).width,
                self.height == old(self).height,
                self.generation == old(self).generation,
                self.current == old(self).current,
                g == self@,
                forall|i: int|
                    0 <= i < x ==> (#[trigger] self.next@[i])@ == step(g, w as int, h as int)[i],
            decreases w - x,
        {
            let mut col: Vec<bool> = Vec::new();
            self.next.set_and_swap(x, &mut col);
            let mut y: usize = 0;
            while y < h
                invariant
                    x < w,
                    y <= h,
                    w == self.width,
                    h == self.height,
                    self.readable(),
                    self.current == old(self).current,
                    g == self@,
                    col@.len() == h,
                    forall|j: int|
                        0 <= j < y ==> #[trigger] col@[j] == step(g, w as int, h as int)[x as int][j],
                decreases h - y,
            {
                let n = self.neighbors(x, y);
                let alive = self.current[x][y];
                col.set(y, rule(alive, n));
                y += 1;
            }
            assert(col@ =~= step(g, w as int, h as int)[x as int]);
            self.next.set_and_swap(x, &mut col);
            x += 1;
        }
        std::mem::swap(&mut self.current, &mut self.next);
        self.generation = self.generation + 1;
        assert(self@ =~= step(g, w as int, h as int));
    }
}

} // verus!
