use game_of_life::patterns::{demo_placements, Pattern};
use game_of_life::{rule, GameOfLife};

fn live_cells(g: &GameOfLife) -> Vec<(usize, usize)> {
    let mut cells = Vec::new();
    for x in 0..g.width() {
        for y in 0..g.height() {
            if g.cell(x, y) {
                cells.push((x, y));
            }
        }
    }
    cells
}

fn board_with(w: usize, h: usize, cells: &[(usize, usize)]) -> GameOfLife {
    let mut g = GameOfLife::new(w, h);
    for &(x, y) in cells {
        g.set_cell(x, y, true);
    }
    g
}

fn sorted(mut v: Vec<(usize, usize)>) -> Vec<(usize, usize)> {
    v.sort();
    v
}

#[test]
fn new_board_is_empty_at_generation_zero() {
    let g = GameOfLife::new(7, 5);
    assert_eq!(g.width(), 7);
    assert_eq!(g.height(), 5);
    assert_eq!(g.generation(), 0);
    assert_eq!(g.generation, 0);
    assert!(live_cells(&g).is_empty());
}

#[test]
fn set_cell_writes_and_reads_back() {
    let mut g = GameOfLife::new(6, 4);
    g.set_cell(5, 3, true);
    assert!(g.cell(5, 3));
    assert!(!g.cell(3, 5));
    g.set_cell(5, 3, false);
    assert!(!g.cell(5, 3));
}

#[test]
fn corner_wraps_to_origin() {
    let g = board_with(8, 6, &[(7, 5)]);
    assert_eq!(g.count_neighbors(0, 0), 1);
    let g = board_with(8, 6, &[(0, 0)]);
    assert_eq!(g.count_neighbors(7, 5), 1);
}

#[test]
fn edges_wrap() {
    let g = board_with(8, 6, &[(7, 2)]);
    assert_eq!(g.count_neighbors(0, 2), 1);
    assert_eq!(g.count_neighbors(0, 1), 1);
    assert_eq!(g.count_neighbors(0, 3), 1);
    assert_eq!(g.count_neighbors(1, 2), 0);
    let g = board_with(8, 6, &[(3, 5)]);
    assert_eq!(g.count_neighbors(3, 0), 1);
    assert_eq!(g.count_neighbors(3, 1), 0);
}

#[test]
fn full_neighbourhood_counts_eight() {
    let mut g = GameOfLife::new(3, 3);
    for x in 0..3 {
        for y in 0..3 {
            g.set_cell(x, y, true);
        }
    }
    assert_eq!(g.count_neighbors(1, 1), 8);
    assert_eq!(g.count_neighbors(0, 0), 8);
}

#[test]
fn rule_table() {
    assert!(!rule(true, 0));
    assert!(!rule(true, 1));
    assert!(rule(true, 2));
    assert!(rule(true, 3));
    assert!(!rule(true, 4));
    assert!(!rule(true, 8));
    assert!(rule(false, 3));
    assert!(!rule(false, 2));
    assert!(!rule(false, 4));
    assert!(!rule(false, 0));
}

#[test]
fn lonely_cell_dies() {
    let mut g = board_with(10, 10, &[(4, 4)]);
    g.update();
    assert!(live_cells(&g).is_empty());
}

#[test]
fn crowded_cell_dies_and_birth_on_three() {
    // A plus shape: the centre has four neighbours and dies.
    let mut g = board_with(10, 10, &[(4, 4), (3, 4), (5, 4), (4, 3), (4, 5)]);
    g.update();
    assert!(!g.cell(4, 4));
    // (3, 3) had exactly three live neighbours: (4,4), (3,4), (4,3).
    assert!(g.cell(3, 3));
}

#[test]
fn blinker_has_period_two() {
    let start = vec![(4, 3), (4, 4), (4, 5)];
    let mut g = board_with(10, 10, &start);
    g.update();
    assert_eq!(sorted(live_cells(&g)), vec![(3, 4), (4, 4), (5, 4)]);
    g.update();
    assert_eq!(sorted(live_cells(&g)), start);
}

#[test]
fn block_is_still_for_five_generations() {
    let block = vec![(0, 0), (0, 1), (1, 0), (1, 1)];
    let mut g = board_with(10, 10, &block);
    for _ in 0..5 {
        g.update();
        assert_eq!(sorted(live_cells(&g)), block);
    }
}

#[test]
fn glider_moves_diagonally_in_four_generations() {
    let mut g = GameOfLife::new(20, 20);
    g.stamp(Pattern::Glider, 1, 1);
    let before = sorted(live_cells(&g));
    assert_eq!(before, vec![(1, 3), (2, 1), (2, 3), (3, 2), (3, 3)]);
    for _ in 0..4 {
        g.update();
    }
    let moved: Vec<(usize, usize)> = before.iter().map(|&(x, y)| (x + 1, y + 1)).collect();
    assert_eq!(sorted(live_cells(&g)), moved);
}

#[test]
fn out_of_range_writes_are_ignored() {
    let mut g = board_with(10, 8, &[(2, 2)]);
    let before = live_cells(&g);
    g.set_cell(usize::MAX, 0, true);
    g.set_cell(10, 8, true);
    g.set_cell(10, 0, true);
    g.set_cell(0, 8, true);
    assert_eq!(live_cells(&g), before);
    assert_eq!(g.width(), 10);
    assert_eq!(g.height(), 8);
    assert!(!g.cell(10, 8));
    assert!(!g.cell(usize::MAX, 0));
}

#[test]
fn demo_layout_is_deterministic() {
    let mut a = GameOfLife::new(160, 120);
    let mut b = GameOfLife::new(160, 120);
    b.set_cell(7, 7, true);
    a.setup_creative_patterns();
    b.setup_creative_patterns();
    assert_eq!(live_cells(&a), live_cells(&b));
    assert!(!live_cells(&a).is_empty());
    for _ in 0..12 {
        a.update();
        b.update();
    }
    assert_eq!(live_cells(&a), live_cells(&b));
}

#[test]
fn demo_layout_clears_first() {
    let mut g = GameOfLife::new(160, 120);
    g.set_cell(80, 100, true);
    g.setup_creative_patterns();
    assert!(!g.cell(80, 100));
}

#[test]
fn demo_placements_on_default_board() {
    let ps = demo_placements(160, 120);
    // 5 pulsars, 16 columns of 3 still lifes, 12 rows of 2, 16 columns of 3
    // oscillators, 4 pentadecathlons, 8 spaceships.
    assert_eq!(ps.len(), 5 + 48 + 24 + 48 + 4 + 8);
    assert_eq!(ps[0], (Pattern::Pulsar, 74, 54));
    assert_eq!(ps[1], (Pattern::Pulsar, 58, 54));
    assert_eq!(ps[4], (Pattern::Pulsar, 74, 70));
    assert_eq!(ps[5], (Pattern::Block, 0, 2));
    assert_eq!(ps[6], (Pattern::Block, 10, 2));
    assert_eq!(ps[21], (Pattern::Beehive, 3, 115));
    assert_eq!(ps[37], (Pattern::Loaf, 5, 60));
    assert_eq!(ps[53], (Pattern::Boat, 2, 0));
    assert_eq!(ps[54], (Pattern::Boat, 2, 10));
    assert_eq!(ps[65], (Pattern::Tub, 155, 0));
    assert_eq!(ps[77], (Pattern::Blinker, 0, 30));
    assert_eq!(ps[93], (Pattern::Beacon, 0, 40));
    assert_eq!(ps[109], (Pattern::Toad, 0, 50));
    assert_eq!(ps[125], (Pattern::Pentadecathlon, 60, 4));
    assert_eq!(ps[128], (Pattern::Pentadecathlon, 90, 4));
    assert_eq!(ps[129], (Pattern::Glider, 3, 3));
    assert_eq!(ps[132], (Pattern::Glider, 154, 114));
    assert_eq!(ps[133], (Pattern::Lwss, 5, 55));
    assert_eq!(ps[134], (Pattern::Lwss, 145, 62));
    assert_eq!(ps[135], (Pattern::Mwss, 10, 40));
    assert_eq!(ps[136], (Pattern::Hwss, 144, 80));
}

#[test]
fn demo_layout_seeds_expected_cells() {
    let mut g = GameOfLife::new(160, 120);
    g.setup_creative_patterns();
    // Block at (0, 2).
    assert!(g.cell(0, 2) && g.cell(1, 2) && g.cell(0, 3) && g.cell(1, 3));
    // Centre pulsar anchored at (74, 54): offset (2, 0) is alive, (0, 0) is not.
    assert!(g.cell(76, 54));
    assert!(!g.cell(74, 54));
    // Glider anchored at (3, 3).
    assert!(g.cell(4, 3) && g.cell(5, 4) && g.cell(3, 5) && g.cell(4, 5) && g.cell(5, 5));
    assert_eq!(g.generation(), 0);
}

#[test]
fn demo_layout_on_small_board_does_not_panic() {
    let mut g = GameOfLife::new(12, 9);
    g.setup_creative_patterns();
    g.update();
    assert_eq!(g.width(), 12);
    let mut g = GameOfLife::new(1, 1);
    g.setup_creative_patterns();
    g.update();
    assert_eq!(g.generation(), 1);
}

#[test]
fn stamp_sizes_match_tables() {
    let cases = [
        (Pattern::Block, 4),
        (Pattern::Beehive, 6),
        (Pattern::Loaf, 7),
        (Pattern::Boat, 5),
        (Pattern::Tub, 4),
        (Pattern::Blinker, 3),
        (Pattern::Beacon, 6),
        (Pattern::Toad, 6),
        (Pattern::Pulsar, 48),
        (Pattern::Pentadecathlon, 12),
        (Pattern::Glider, 5),
        (Pattern::Lwss, 9),
        (Pattern::Mwss, 9),
        (Pattern::Hwss, 10),
    ];
    for (p, n) in cases {
        let mut g = GameOfLife::new(30, 30);
        g.stamp(p, 5, 5);
        assert_eq!(live_cells(&g).len(), n, "{:?}", p);
    }
}

#[test]
fn stamp_is_idempotent_and_clips_at_edges() {
    let mut g = GameOfLife::new(10, 10);
    g.stamp(Pattern::Beehive, 2, 2);
    let once = live_cells(&g);
    g.stamp(Pattern::Beehive, 2, 2);
    assert_eq!(live_cells(&g), once);

    let mut g = GameOfLife::new(10, 10);
    g.stamp(Pattern::Block, -1, -1);
    assert_eq!(live_cells(&g), vec![(0, 0)]);
    g.stamp(Pattern::Block, 9, 9);
    assert_eq!(live_cells(&g), vec![(0, 0), (9, 9)]);
    g.stamp(Pattern::Pulsar, i128::MIN, i128::MAX);
    assert_eq!(live_cells(&g), vec![(0, 0), (9, 9)]);
}

#[test]
fn clear_kills_everything() {
    let mut g = GameOfLife::new(30, 30);
    g.stamp(Pattern::Pulsar, 3, 3);
    g.clear();
    assert!(live_cells(&g).is_empty());
    assert_eq!(g.generation(), 0);
}

#[test]
fn generation_counts_updates() {
    let mut g = GameOfLife::new(5, 5);
    assert_eq!(g.generation(), 0);
    for i in 1..=7u32 {
        g.update();
        assert_eq!(g.generation(), i);
    }
    g.set_cell(1, 1, true);
    g.stamp(Pattern::Glider, 0, 0);
    g.clear();
    g.setup_creative_patterns();
    assert_eq!(g.generation(), 7);
}
