//! Named seed patterns and the fixed demonstration layout.
use vstd::prelude::*;

use crate::grid::GameOfLife;
use crate::rules::{blank, is_board, set_at};

verus! {

/// The named patterns that can be stamped onto a board.
#[derive(Clone, Copy, Debug, PartialEq, Eq, Structural)]
pub enum Pattern {
    Block,
    Beehive,
    Loaf,
    Boat,
    Tub,
    Blinker,
    Beacon,
    Toad,
    Pulsar,
    Pentadecathlon,
    Glider,
    Lwss,
    Mwss,
    Hwss,
}

impl Pattern {
    /// The live cells of the pattern, as offsets from its anchor.
    pub open spec fn offsets(self) -> Seq<(usize, usize)> {
        match self {
            Pattern::Block => seq![(0, 0), (1, 0), (0, 1), (1, 1)],
            Pattern::Beehive => seq![(1, 0), (2, 0), (0, 1), (3, 1), (1, 2), (2, 2)],
            Pattern::Loaf => seq![(1, 0), (2, 0), (0, 1), (3, 1), (1, 2), (3, 2), (2, 3)],
            Pattern::Boat => seq![(0, 0), (1, 0), (0, 1), (2, 1), (1, 2)],
            Pattern::Tub => seq![(1, 0), (0, 1), (2, 1), (1, 2)],
            Pattern::Blinker => seq![(0, 0), (0, 1), (0, 2)],
            Pattern::Beacon => seq![(0, 0), (1, 0), (0, 1), (3, 2), (2, 3), (3, 3)],
            Pattern::Toad => seq![(1, 0), (2, 0), (3, 0), (0, 1), (1, 1), (2, 1)],
            Pattern::Pulsar => seq![
                (2, 0), (3, 0), (4, 0), (8, 0), (9, 0), (10, 0),
                (0, 2), (5, 2), (7, 2), (12, 2),
                (0, 3), (5, 3), (7, 3), (12, 3),
                (0, 4), (5, 4), (7, 4), (12, 4),
                (2, 5), (3, 5), (4, 5), (8, 5), (9, 5), (10, 5),
                (2, 7), (3, 7), (4, 7), (8, 7), (9, 7), (10, 7),
                (0, 8), (5, 8), (7, 8), (12, 8),
                (0, 9), (5, 9), (7, 9), (12, 9),
                (0, 10), (5, 10), (7, 10), (12, 10),
                (2, 12), (3, 12), (4, 12), (8, 12), (9, 12), (10, 12),
            ],
            Pattern::Pentadecathlon => seq![
                (0, 1), (1, 1), (2, 1), (3, 1), (4, 1), (5, 1), (6, 1), (7, 1),
                (1, 0), (6, 0), (1, 2), (6, 2),
            ],
            Pattern::Glider => seq![(1, 0), (2, 1), (0, 2), (1, 2), (2, 2)],
            Pattern::Lwss => seq![(1, 0), (4, 0), (0, 1), (0, 2), (4, 2), (0, 3), (1, 3), (2, 3), (3, 3)],
            Pattern::Mwss => seq![(1, 0), (2, 0), (3, 0), (4, 0), (0, 1), (4, 1), (4, 2), (0, 3), (3, 3)],
            Pattern::Hwss => seq![
                (1, 0), (2, 0), (3, 0), (4, 0), (5, 0), (0, 1), (5, 1), (5, 2), (0, 3), (4, 3),
            ],
        }
    }
}

/// Some offset of `offs`, placed at anchor `(ax, ay)`, lands on `(i, j)`.
pub open spec fn covers(offs: Seq<(usize, usize)>, ax: int, ay: int, i: int, j: int) -> bool {
    exists|k: int| 0 <= k < offs.len() && ax + (#[trigger] offs[k]).0 == i && ay + offs[k].1 == j
}

/// `g` with every on-board cell that `offs` covers at anchor `(ax, ay)` set alive.
pub open spec fn stamped(g: Seq<Seq<bool>>, offs: Seq<(usize, usize)>, ax: int, ay: int) -> Seq<
    Seq<bool>,
> {
    Seq::new(
        g.len(),
        |i: int| Seq::new(g[i].len(), |j: int| g[i][j] || covers(offs, ax, ay, i, j)),
    )
}

/// Stamping one more offset is one more cell write, ignored off the board.
proof fn lemma_stamp_extend(
    g: Seq<Seq<bool>>,
    w: int,
    h: int,
    offs: Seq<(usize, usize)>,
    k: int,
    ax: int,
    ay: int,
)
    requires
        is_board(g, w, h),
        0 <= k < offs.len(),
    ensures
        set_at(stamped(g, offs.take(k), ax, ay), ax + offs[k].0, ay + offs[k].1, true) == stamped(
            g,
            offs.take(k + 1),
            ax,
            ay,
        ),
        is_board(stamped(g, offs.take(k + 1), ax, ay), w, h),
{
    let a = set_at(stamped(g, offs.take(k), ax, ay), ax + offs[k].0, ay + offs[k].1, true);
    let b = stamped(g, offs.take(k + 1), ax, ay);
    assert forall|i: int| 0 <= i < w implies a[i] =~= b[i] by {
        assert forall|j: int| 0 <= j < h implies a[i][j] == b[i][j] by {
            if covers(offs.take(k), ax, ay, i, j) {
                let m = choose|m: int|
                    0 <= m < offs.take(k).len() && ax + (#[trigger] offs.take(k)[m]).0 == i && ay
                        + offs.take(k)[m].1 == j;
                assert(offs.take(k + 1)[m] == offs.take(k)[m]);
            }
            if covers(offs.take(k + 1), ax, ay, i, j) {
                let m = choose|m: int|
                    0 <= m < offs.take(k + 1).len() && ax + (#[trigger] offs.take(k + 1)[m]).0 == i
                        && ay + offs.take(k + 1)[m].1 == j;
                if m < k {
                    assert(offs.take(k)[m] == offs.take(k + 1)[m]);
                }
            }
            if i == ax + offs[k].0 && j == ay + offs[k].1 {
                assert(offs.take(k + 1)[k] == offs[k]);
            }
        }
    }
    assert(a =~= b);
}

/// The anchors of a placement list, as mathematical integers.
pub open spec fn anchors(v: Seq<(Pattern, i128, i128)>) -> Seq<(Pattern, int, int)> {
    v.map_values(|e: (Pattern, i128, i128)| (e.0, e.1 as int, e.2 as int))
}

/// `n` placements of `p`, the `i`-th anchored at `(x0 + i * sx, y0 + i * sy)`.
pub open spec fn row(p: Pattern, n: int, x0: int, sx: int, y0: int, sy: int) -> Seq<
    (Pattern, int, int),
> {
    Seq::new(n as nat, |i: int| (p, x0 + i * sx, y0 + i * sy))
}

/// Five pulsars in a plus round the centre of a board of `w` columns and `h` rows.
pub open spec fn pulsar_cross(w: int, h: int) -> Seq<(Pattern, int, int)> {
    let px = w / 2 - 6;
    let py = h / 2 - 6;
    seq![
        (Pattern::Pulsar, px, py),
        (Pattern::Pulsar, px - 16, py),
        (Pattern::Pulsar, px + 16, py),
        (Pattern::Pulsar, px, py - 16),
        (Pattern::Pulsar, px, py + 16),
    ]
}

/// Still lifes along the edges, rows of oscillators and pentadecathlons near the top.
pub open spec fn tiled_rows(w: int, h: int) -> Seq<(Pattern, int, int)> {
    row(Pattern::Block, w / 10, 0, 10, 2, 0) + row(Pattern::Beehive, w / 10, 3, 10, h - 5, 0) + row(
        Pattern::Loaf,
        w / 10,
        5,
        10,
        h / 2,
        0,
    ) + row(Pattern::Boat, h / 10, 2, 0, 0, 10) + row(Pattern::Tub, h / 10, w - 5, 0, 0, 10) + row(
        Pattern::Blinker,
        w / 10,
        0,
        10,
        h / 4,
        0,
    ) + row(Pattern::Beacon, w / 10, 0, 10, h / 4 + 10, 0) + row(
        Pattern::Toad,
        w / 10,
        0,
        10,
        h / 4 + 20,
        0,
    ) + row(Pattern::Pentadecathlon, 4, w / 2 - 20, 10, 4, 0)
}

/// A glider near each corner and four larger spaceships.
pub open spec fn spaceships(w: int, h: int) -> Seq<(Pattern, int, int)> {
    seq![
        (Pattern::Glider, 3, 3),
        (Pattern::Glider, w - 6, 3),
        (Pattern::Glider, 3, h - 6),
        (Pattern::Glider, w - 6, h - 6),
        (Pattern::Lwss, 5, h / 2 - 5),
        (Pattern::Lwss, w - 15, h / 2 + 2),
        (Pattern::Mwss, 10, h / 3),
        (Pattern::Hwss, w - 16, h / 3 * 2),
    ]
}

/// The placements of the demonstration layout on a board of `w` columns and `h` rows.
pub open spec fn layout_placements(w: int, h: int) -> Seq<(Pattern, int, int)> {
    pulsar_cross(w, h) + tiled_rows(w, h) + spaceships(w, h)
}

/// Some placement of `ps` covers the cell `(i, j)`.
pub open spec fn placed_on(ps: Seq<(Pattern, int, int)>, i: int, j: int) -> bool {
    exists|k: int| 0 <= k < ps.len() && covers((#[trigger] ps[k]).0.offsets(), ps[k].1, ps[k].2, i, j)
}

/// `g` with every on-board cell of every placement in `ps` set alive.
pub open spec fn placed(g: Seq<Seq<bool>>, ps: Seq<(Pattern, int, int)>) -> Seq<Seq<bool>> {
    Seq::new(g.len(), |i: int| Seq::new(g[i].len(), |j: int| g[i][j] || placed_on(ps, i, j)))
}

/// The demonstration layout on a board of `w` columns and `h` rows.
pub open spec fn demo_layout(w: int, h: int) -> Seq<Seq<bool>> {
    placed(blank(w, h), layout_placements(w, h))
}

/// Applying one more placement is one more stamp.
proof fn lemma_place_extend(g: Seq<Seq<bool>>, w: int, h: int, ps: Seq<(Pattern, int, int)>, k: int)
    requires
        is_board(g, w, h),
        0 <= k < ps.len(),
    ensures
        stamped(placed(g, ps.take(k)), ps[k].0.offsets(), ps[k].1, ps[k].2) == placed(
            g,
            ps.take(k + 1),
        ),
        is_board(placed(g, ps.take(k + 1)), w, h),
{
    let a = stamped(placed(g, ps.take(k)), ps[k].0.offsets(), ps[k].1, ps[k].2);
    let b = placed(g, ps.take(k + 1));
    assert forall|i: int| 0 <= i < w implies a[i] =~= b[i] by {
        assert forall|j: int| 0 <= j < h implies a[i][j] == b[i][j] by {
            if placed_on(ps.take(k), i, j) {
                let m = choose|m: int|
                    0 <= m < ps.take(k).len() && covers(
                        (#[trigger] ps.take(k)[m]).0.offsets(),
                        ps.take(k)[m].1,
                        ps.take(k)[m].2,
                        i,
                        j,
                    );
                assert(ps.take(k + 1)[m] == ps.take(k)[m]);
            }
            if placed_on(ps.take(k + 1), i, j) {
                let m = choose|m: int|
                    0 <= m < ps.take(k + 1).len() && covers(
                        (#[trigger] ps.take(k + 1)[m]).0.offsets(),
                        ps.take(k + 1)[m].1,
                        ps.take(k + 1)[m].2,
                        i,
                        j,
                    );
                if m < k {
                    assert(ps.take(k)[m] == ps.take(k + 1)[m]);
                }
            }
            if covers(ps[k].0.offsets(), ps[k].1, ps[k].2, i, j) {
                assert(ps.take(k + 1)[k] == ps[k]);
            }
        }
    }
    assert(a =~= b);
}

/// Appends one placement.
fn push_placement(v: &mut Vec<(Pattern, i128, i128)>, p: Pattern, x: i128, y: i128)
    ensures
        anchors(final(v)@) == anchors(old(v)@).push((p, x as int, y as int)),
{
    v.push((p, x, y));
    assert(anchors(v@) =~= anchors(old(v)@).push((p, x as int, y as int)));
}

/// Appends `n` placements of `p`, the `i`-th anchored at `(x0 + i * sx, y0 + i * sy)`.
fn push_row(
    v: &mut Vec<(Pattern, i128, i128)>,
    p: Pattern,
    n: usize,
    x0: i128,
    sx: i128,
    y0: i128,
    sy: i128,
)
    requires
        -0x1_0000_0000_0000_0000_0000 <= x0 <= 0x1_0000_0000_0000_0000_0000,
        -0x1_0000_0000_0000_0000_0000 <= y0 <= 0x1_0000_0000_0000_0000_0000,
        0 <= sx <= 10,
        0 <= sy <= 10,
    ensures
        anchors(final(v)@) == anchors(old(v)@) + row(p, n as int, x0 as int, sx as int, y0 as int, sy as int),
{
    let mut i: usize = 0;
    let mut x: i128 = x0;
    let mut y: i128 = y0;
    while i < n
        invariant
            i <= n,
            -0x1_0000_0000_0000_0000_0000 <= x0 <= 0x1_0000_0000_0000_0000_0000,
            -0x1_0000_0000_0000_0000_0000 <= y0 <= 0x1_0000_0000_0000_0000_0000,
            0 <= sx <= 10,
            0 <= sy <= 10,
            x == x0 + i * sx,
            y == y0 + i * sy,
            anchors(v@) == anchors(old(v)@) + row(p, i as int, x0 as int, sx as int, y0 as int, sy as int),
        decreases n - i,
    {
        proof {
            assert(i * sx <= 10 * 0x1_0000_0000_0000_0000) by (nonlinear_arith)
                requires
                    i <= 0x1_0000_0000_0000_0000,
                    0 <= sx <= 10,
            ;
            assert(i * sy <= 10 * 0x1_0000_0000_0000_0000) by (nonlinear_arith)
                requires
                    i <= 0x1_0000_0000_0000_0000,
                    0 <= sy <= 10,
            ;
            assert(0 <= i * sx && 0 <= i * sy) by (nonlinear_arith)
                requires
                    0 <= i,
                    0 <= sx,
                    0 <= sy,
            ;
        }
        push_placement(v, p, x, y);
        assert(anchors(v@) =~= anchors(old(v)@) + row(
            p,
            i + 1,
            x0 as int,
            sx as int,
            y0 as int,
            sy as int,
        ));
        x = x + sx;
        y = y + sy;
        i += 1;
        assert(x == x0 + i * sx && y == y0 + i * sy) by (nonlinear_arith)
            requires
                x == x0 + (i - 1) * sx + sx,
                y == y0 + (i - 1) * sy + sy,
        ;
    }
}

/// Appends the pulsar plus.
fn push_pulsar_cross(v: &mut Vec<(Pattern, i128, i128)>, w: usize, h: usize)
    ensures
        anchors(final(v)@) == anchors(old(v)@) + pulsar_cross(w as int, h as int),
{
    let ghost s = anchors(v@);
    let px = w as i128 / 2 - 6;
    let py = h as i128 / 2 - 6;
    push_placement(v, Pattern::Pulsar, px, py);
    push_placement(v, Pattern::Pulsar, px - 16, py);
    push_placement(v, Pattern::Pulsar, px + 16, py);
    push_placement(v, Pattern::Pulsar, px, py - 16);
    push_placement(v, Pattern::Pulsar, px, py + 16);
    assert(anchors(v@) =~= s + pulsar_cross(w as int, h as int));
}

/// Appends the tiled still lifes, oscillators and pentadecathlons.
fn push_tiled_rows(v: &mut Vec<(Pattern, i128, i128)>, w: usize, h: usize)
    ensures
        anchors(final(v)@) == anchors(old(v)@) + tiled_rows(w as int, h as int),
{
    let ghost s = anchors(v@);
    let wi = w as i128;
    let hi = h as i128;
    push_row(v, Pattern::Block, w / 10, 0, 10, 2, 0);
    push_row(v, Pattern::Beehive, w / 10, 3, 10, hi - 5, 0);
    push_row(v, Pattern::Loaf, w / 10, 5, 10, hi / 2, 0);
    push_row(v, Pattern::Boat, h / 10, 2, 0, 0, 10);
    push_row(v, Pattern::Tub, h / 10, wi - 5, 0, 0, 10);
    push_row(v, Pattern::Blinker, w / 10, 0, 10, hi / 4, 0);
    push_row(v, Pattern::Beacon, w / 10, 0, 10, hi / 4 + 10, 0);
    push_row(v, Pattern::Toad, w / 10, 0, 10, hi / 4 + 20, 0);
    push_row(v, Pattern::Pentadecathlon, 4, wi / 2 - 20, 10, 4, 0);
    assert(anchors(v@) =~= s + tiled_rows(w as int, h as int));
}

/// Appends the gliders and larger spaceships.
fn push_spaceships(v: &mut Vec<(Pattern, i128, i128)>, w: usize, h: usize)
    ensures
        anchors(final(v)@) == anchors(old(v)@) + spaceships(w as int, h as int),
{
    let ghost s = anchors(v@);
    let wi = w as i128;
    let hi = h as i128;
    push_placement(v, Pattern::Glider, 3, 3);
    push_placement(v, Pattern::Glider, wi - 6, 3);
    push_placement(v, Pattern::Glider, 3, hi - 6);
    push_placement(v, Pattern::Glider, wi - 6, hi - 6);
    push_placement(v, Pattern::Lwss, 5, hi / 2 - 5);
    push_placement(v, Pattern::Lwss, wi - 15, hi / 2 + 2);
    push_placement(v, Pattern::Mwss, 10, hi / 3);
    push_placement(v, Pattern::Hwss, wi - 16, hi / 3 * 2);
    assert(anchors(v@) =~= s + spaceships(w as int, h as int));
}

/// The placements of the demonstration layout on a board of `w` columns and `h` rows,
/// in the order in which they are stamped.
pub fn demo_placements(w: usize, h: usize) -> (r: Vec<(Pattern, i128, i128)>)
    ensures
        anchors(r@) == layout_placements(w as int, h as int),
{
    let mut v: Vec<(Pattern, i128, i128)> = Vec::new();
    assert(anchors(v@) =~= Seq::empty());
    push_pulsar_cross(&mut v, w, h);
    push_tiled_rows(&mut v, w, h);
    push_spaceships(&mut v, w, h);
    assert(anchors(v@) =~= layout_placements(w as int, h as int));
    v
}

impl GameOfLife {
    /// Sets alive every on-board cell that `offs` covers at anchor `(x, y)`.
    fn stamp_offsets(&mut self, offs: &[(usize, usize)], x: i128, y: i128)
        requires
            old(self).wf(),
        ensures
            final(self).wf(),
            final(self).width() == old(self).width(),
            final(self).height() == old(self).height(),
            final(self).generation() == old(self).generation(),
            final(self)@ == stamped(old(self)@, offs@, x as int, y as int),
    {
        let w = self.width() as i128;
        let h = self.height() as i128;
        let ghost g = self@;
        proof {
            self.lemma_board();
            assert(offs@.take(0) =~= Seq::<(usize, usize)>::empty());
            assert(stamped(g, offs@.take(0), x as int, y as int) =~~= g);
        }
        let mut k: usize = 0;
        while k < offs.len()
            invariant
                self.wf(),
                k <= offs@.len(),
                self.width() == old(self).width(),
                self.height() == old(self).height(),
                self.generation() == old(self).generation(),
                w == self.width() as i128,
                h == self.height() as i128,
                g == old(self)@,
                is_board(g, w as int, h as int),
                self@ == stamped(g, offs@.take(k as int), x as int, y as int),
            decreases offs@.len() - k,
        {
            let (dx, dy) = offs[k];
            let dxi = dx as i128;
            let dyi = dy as i128;
            proof {
                lemma_stamp_extend(g, w as int, h as int, offs@, k as int, x as int, y as int);
            }
            if x >= -dxi && x < w - dxi && y >= -dyi && y < h - dyi {
                self.set_cell((x + dxi) as usize, (y + dyi) as usize, true);
            } else {
                proof {
                    self.lemma_board();
                }
            }
            k += 1;
        }
        assert(offs@.take(offs@.len() as int) =~= offs@);
    }

    /// Sets alive every on-board cell of `pattern` anchored at `(x, y)`; cells that
    /// fall off the board are dropped. Stamping never kills a cell.
    pub fn stamp(&mut self, pattern: Pattern, x: i128, y: i128)
        requires
            old(self).wf(),
        ensures
            final(self).wf(),
            final(self).width() == old(self).width(),
            final(self).height() == old(self).height(),
            final(self).generation() == old(self).generation(),
            final(self)@ == stamped(old(self)@, pattern.offsets(), x as int, y as int),
    {
        match pattern {
            Pattern::Block => {
                let p: [(usize, usize); 4] = [(0, 0), (1, 0), (0, 1), (1, 1)];
                assert(p@ =~= pattern.offsets());
                self.stamp_offsets(&p, x, y);
            },
            Pattern::Beehive => {
                let p: [(usize, usize); 6] = [(1, 0), (2, 0), (0, 1), (3, 1), (1, 2), (2, 2)];
                assert(p@ =~= pattern.offsets());
                self.stamp_offsets(&p, x, y);
            },
            Pattern::Loaf => {
                let p: [(usize, usize); 7] = [
                    (1, 0), (2, 0), (0, 1), (3, 1), (1, 2), (3, 2), (2, 3),
                ];
                assert(p@ =~= pattern.offsets());
                self.stamp_offsets(&p, x, y);
            },
            Pattern::Boat => {
                let p: [(usize, usize); 5] = [(0, 0), (1, 0), (0, 1), (2, 1), (1, 2)];
                assert(p@ =~= pattern.offsets());
                self.stamp_offsets(&p, x, y);
            },
            Pattern::Tub => {
                let p: [(usize, usize); 4] = [(1, 0), (0, 1), (2, 1), (1, 2)];
                assert(p@ =~= pattern.offsets());
                self.stamp_offsets(&p, x, y);
            },
            Pattern::Blinker => {
                let p: [(usize, usize); 3] = [(0, 0), (0, 1), (0, 2)];
                assert(p@ =~= pattern.offsets());
                self.stamp_offsets(&p, x, y);
            },
            Pattern::Beacon => {
                let p: [(usize, usize); 6] = [(0, 0), (1, 0), (0, 1), (3, 2), (2, 3), (3, 3)];
                assert(p@ =~= pattern.offsets());
                self.stamp_offsets(&p, x, y);
            },
            Pattern::Toad => {
                let p: [(usize, usize); 6] = [(1, 0), (2, 0), (3, 0), (0, 1), (1, 1), (2, 1)];
                assert(p@ =~= pattern.offsets());
                self.stamp_offsets(&p, x, y);
            },
            Pattern::Pulsar => {
                let p: [(usize, usize); 48] = [
                    (2, 0), (3, 0), (4, 0), (8, 0), (9, 0), (10, 0),
                    (0, 2), (5, 2), (7, 2), (12, 2),
                    (0, 3), (5, 3), (7, 3), (12, 3),
                    (0, 4), (5, 4), (7, 4), (12, 4),
                    (2, 5), (3, 5), (4, 5), (8, 5), (9, 5), (10, 5),
                    (2, 7), (3, 7), (4, 7), (8, 7), (9, 7), (10, 7),
                    (0, 8), (5, 8), (7, 8), (12, 8),
                    (0, 9), (5, 9), (7, 9), (12, 9),
                    (0, 10), (5, 10), (7, 10), (12, 10),
                    (2, 12), (3, 12), (4, 12), (8, 12), (9, 12), (10, 12),
                ];
                assert(p@ =~= pattern.offsets());
                self.stamp_offsets(&p, x, y);
            },
            Pattern::Pentadecathlon => {
                let p: [(usize, usize); 12] = [
                    (0, 1), (1, 1), (2, 1), (3, 1), (4, 1), (5, 1), (6, 1), (7, 1),
                    (1, 0), (6, 0), (1, 2), (6, 2),
                ];
                assert(p@ =~= pattern.offsets());
                self.stamp_offsets(&p, x, y);
            },
            Pattern::Glider => {
                let p: [(usize, usize); 5] = [(1, 0), (2, 1), (0, 2), (1, 2), (2, 2)];
                assert(p@ =~= pattern.offsets());
                self.stamp_offsets(&p, x, y);
            },
            Pattern::Lwss => {
                let p: [(usize, usize); 9] = [
                    (1, 0), (4, 0), (0, 1), (0, 2), (4, 2), (0, 3), (1, 3), (2, 3), (3, 3),
                ];
                assert(p@ =~= pattern.offsets());
                self.stamp_offsets(&p, x, y);
            },
            Pattern::Mwss => {
                let p: [(usize, usize); 9] = [
                    (1, 0), (2, 0), (3, 0), (4, 0), (0, 1), (4, 1), (4, 2), (0, 3), (3, 3),
                ];
                assert(p@ =~= pattern.offsets());
                self.stamp_offsets(&p, x, y);
            },
            Pattern::Hwss => {
                let p: [(usize, usize); 10] = [
                    (1, 0), (2, 0), (3, 0), (4, 0), (5, 0), (0, 1), (5, 1), (5, 2), (0, 3), (4, 3),
                ];
                assert(p@ =~= pattern.offsets());
                self.stamp_offsets(&p, x, y);
            },
        }
    }

    /// Clears the board and seeds it with the demonstration layout: a plus of
    /// pulsars round the centre, still lifes along the edges, rows of oscillators,
    /// pentadecathlons near the top and spaceships near the corners.
    pub fn setup_creative_patterns(&mut self)
        requires
            old(self).wf(),
        ensures
            final(self).wf(),
            final(self).width() == old(self).width(),
            final(self).height() == old(self).height(),
            final(self).generation() == old(self).generation(),
            final(self)@ == demo_layout(old(self).width() as int, old(self).height() as int),
    {
        self.clear();
        let ps = demo_placements(self.width(), self.height());
        let ghost w = self.width() as int;
        let ghost h = self.height() as int;
        let ghost all = anchors(ps@);
        proof {
            assert(all.take(0) =~= Seq::<(Pattern, int, int)>::empty());
            assert(placed(blank(w, h), all.take(0)) =~~= blank(w, h));
        }
        let mut k: usize = 0;
        while k < ps.len()
            invariant
                self.wf(),
                k <= ps@.len(),
                self.width() == old(self).width(),
                self.height() == old(self).height(),
                self.generation() == old(self).generation(),
                w == self.width() as int,
                h == self.height() as int,
                all == anchors(ps@),
                all == layout_placements(w, h),
                self@ == placed(blank(w, h), all.take(k as int)),
            decreases ps@.len() - k,
        {
            let (p, x, y) = ps[k];
            proof {
                self.lemma_board();
                assert(is_board(blank(w, h), w, h));
                lemma_place_extend(blank(w, h), w, h, all, k as int);
            }
            self.stamp(p, x, y);
            k += 1;
        }
        assert(all.take(all.len() as int) =~= all);
    }
}

} // verus!
