use game_of_life::grid::GameOfLife;
use game_of_life::hue::Hue;
use game_of_life::stamp::Stamp;

fn alive_set(g: &GameOfLife) -> Vec<(usize, usize)> {
    let mut out: Vec<(usize, usize)> = Vec::new();
    for x in 0..g.width() as usize {
        for y in 0..g.height() as usize {
            if g.get_cell(x, y) {
                out.push((x, y));
            }
        }
    }
    out
}

#[test]
fn blinker_period_two() {
    let mut g = GameOfLife::new(5, 5);
    g.clear_grid();
    g.set_cell(1, 2, true);
    g.set_cell(2, 2, true);
    g.set_cell(3, 2, true);
    g.update();
    assert_eq!(alive_set(&g), vec![(2, 1), (2, 2), (2, 3)]);
    g.update();
    assert_eq!(alive_set(&g), vec![(1, 2), (2, 2), (3, 2)]);
}

#[test]
fn block_still_life() {
    let mut g = GameOfLife::new(4, 4);
    g.set_cell(1, 1, true);
    g.set_cell(2, 1, true);
    g.set_cell(1, 2, true);
    g.set_cell(2, 2, true);
    let block = alive_set(&g);
    for _ in 0..10 {
        g.update();
        assert_eq!(alive_set(&g), block);
    }
}

#[test]
fn glider_translates_diagonally() {
    let mut g = GameOfLife::new(20, 20);
    let glider = Stamp::glider();
    g.stamp(0, 0, &glider, Some(Hue::new(0)));
    let before = alive_set(&g);
    assert_eq!(before, vec![(0, 0), (0, 2), (1, 1), (1, 2), (2, 1)]);
    for _ in 0..4 {
        g.update();
    }
    let shifted: Vec<(usize, usize)> = vec![(1, 1), (1, 3), (2, 2), (2, 3), (3, 2)];
    assert_eq!(alive_set(&g), shifted);
}

#[test]
fn toad_oscillates() {
    let mut g = GameOfLife::new(8, 8);
    let toad = Stamp::toad();
    g.stamp(2, 3, &toad, None);
    let start = alive_set(&g);
    g.update();
    assert_ne!(alive_set(&g), start);
    g.update();
    assert_eq!(alive_set(&g), start);
}

#[test]
fn beacon_oscillates() {
    let mut g = GameOfLife::new(8, 8);
    let beacon = Stamp::beacon();
    g.stamp(2, 2, &beacon, None);
    let start = alive_set(&g);
    g.update();
    assert_ne!(alive_set(&g), start);
    g.update();
    assert_eq!(alive_set(&g), start);
}

#[test]
fn lone_cells_die_and_empty_grid_stays_empty() {
    let mut g = GameOfLife::new(6, 6);
    g.set_cell(3, 3, true);
    g.update();
    assert_eq!(g.get_stats().0, 0);
    g.update();
    assert_eq!(g.get_stats().0, 0);
}

#[test]
fn out_of_range_set_is_a_no_op() {
    let w: usize = 7;
    let h: usize = 5;
    let mut g = GameOfLife::new(w as u32, h as u32);
    g.set_cell(w, 0, true);
    assert_eq!(g.get_stats(), (0, (w * h) as u32));
    g.set_cell(0, h, true);
    g.set_cell_with_color(w, h, true, Some(Hue::new(1)));
    assert_eq!(g.get_stats(), (0, (w * h) as u32));
    assert_eq!(g.get_cell(w, 0), false);
    assert_eq!(g.get_cell_color(w, 0), None);
}

#[test]
fn stats_count_live_cells() {
    let mut g = GameOfLife::new(10, 3);
    assert_eq!(g.get_stats(), (0, 30));
    g.set_cell(0, 0, true);
    g.set_cell(9, 2, true);
    g.set_cell(4, 1, true);
    g.set_cell(4, 1, true);
    assert_eq!(g.get_stats(), (3, 30));
    g.set_cell(4, 1, false);
    assert_eq!(g.get_stats(), (2, 30));
}

#[test]
fn clear_grid_kills_everything() {
    let mut g = GameOfLife::new(6, 4);
    for x in 0..6 {
        g.set_cell(x, 1, true);
    }
    assert!(g.get_stats().0 > 0);
    g.clear_grid();
    assert_eq!(g.get_stats(), (0, 24));
    for x in 0..6 {
        for y in 0..4 {
            assert!(!g.get_cell(x, y));
            assert_eq!(g.get_cell_color(x, y), None);
        }
    }
}

#[test]
fn border_cells_see_no_outside_neighbors() {
    // A full 2x2 grid: every cell is a corner with exactly three in-grid
    // neighbors, so the block is stable although a torus would differ.
    let mut g = GameOfLife::new(2, 2);
    for x in 0..2 {
        for y in 0..2 {
            g.set_cell(x, y, true);
        }
    }
    g.update();
    assert_eq!(g.get_stats(), (4, 4));
}

#[test]
fn smallest_grid_works() {
    let mut g = GameOfLife::new(1, 1);
    assert_eq!(g.get_stats(), (0, 1));
    g.set_cell(0, 0, true);
    assert_eq!(g.get_stats(), (1, 1));
    g.update();
    // A lone cell has no neighbors and dies.
    assert_eq!(g.get_stats(), (0, 1));
    assert_eq!(g.get_cell_color(0, 0), None);
}
