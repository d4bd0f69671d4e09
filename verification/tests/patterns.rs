use game_of_life::grid::GameOfLife;
use game_of_life::hue::Hue;
use game_of_life::stamp::Stamp;

#[test]
fn overflowing_stamp_is_rejected_wholesale() {
    let mut g = GameOfLife::new(10, 10);
    let glider = Stamp::glider();
    // One column too far right: nothing at all is placed.
    g.stamp(8, 0, &glider, None);
    assert_eq!(g.get_stats().0, 0);
    // One row too far down.
    g.stamp(0, 8, &glider, None);
    assert_eq!(g.get_stats().0, 0);
    // The last position where it fits.
    g.stamp(7, 7, &glider, None);
    assert_eq!(g.get_stats().0, 5);
}

#[test]
fn stamping_never_clears_a_live_cell() {
    let mut g = GameOfLife::new(6, 6);
    let hue = Hue::new(300_000);
    // A cell under a 0-bit of the glider (its center column top) stays.
    g.set_cell_with_color(2, 1, true, Some(hue));
    g.set_cell_with_color(1, 0, true, Some(hue));
    let glider = Stamp::glider();
    g.stamp(0, 0, &glider, Some(Hue::new(0)));
    assert!(g.get_cell(1, 0), "cell under a 0-bit was cleared");
    assert_eq!(g.get_cell_color(1, 0), Some(hue), "hue under a 0-bit changed");
    assert!(g.get_cell(2, 1), "cell under a 1-bit must be alive");
    assert_eq!(g.get_cell_color(2, 1), Some(Hue::new(0)));
}

#[test]
fn stamp_writes_exactly_its_one_bits() {
    let mut g = GameOfLife::new(8, 8);
    let hue = Hue::new(123_456);
    let toad = Stamp::toad();
    g.stamp(3, 4, &toad, Some(hue));
    let expected: [(usize, usize); 6] = [(4, 4), (5, 4), (6, 4), (3, 5), (4, 5), (5, 5)];
    for x in 0..8 {
        for y in 0..8 {
            let should = expected.contains(&(x, y));
            assert_eq!(g.get_cell(x, y), should, "cell ({}, {})", x, y);
            let color = if should { Some(hue) } else { None };
            assert_eq!(g.get_cell_color(x, y), color, "hue at ({}, {})", x, y);
        }
    }
}

#[test]
fn stamp_with_absent_hue_leaves_cells_colorless() {
    let mut g = GameOfLife::new(5, 5);
    let blinker = Stamp::blinker();
    g.stamp(1, 2, &blinker, None);
    assert!(g.get_cell(1, 2) && g.get_cell(2, 2) && g.get_cell(3, 2));
    assert_eq!(g.get_cell_color(2, 2), None);
}

#[test]
fn catalog_dimensions_and_populations() {
    let cases: Vec<(Stamp, usize, usize, u32)> = vec![
        (Stamp::glider(), 3, 3, 5),
        (Stamp::blinker(), 3, 1, 3),
        (Stamp::toad(), 4, 2, 6),
        (Stamp::beacon(), 4, 4, 8),
        (Stamp::lwss(), 5, 4, 9),
        (Stamp::small_flower(), 3, 3, 5),
        (Stamp::flower(), 5, 5, 9),
        (Stamp::large_flower(), 7, 7, 13),
        (Stamp::flower2(), 6, 6, 16),
        (Stamp::butterfly(), 6, 6, 8),
        (Stamp::giant_flower(), 9, 9, 17),
        (Stamp::heart(), 6, 6, 9),
        (Stamp::flower3(), 15, 15, 24),
        (Stamp::bottle(), 15, 15, 32),
    ];
    for (stamp, w, h, pop) in cases {
        assert_eq!(stamp.width(), w);
        assert_eq!(stamp.height(), h);
        let mut g = GameOfLife::new(16, 16);
        g.stamp(0, 0, &stamp, None);
        assert_eq!(g.get_stats().0, pop, "population of a {}x{} stamp", w, h);
    }
}

#[test]
fn lwss_travels_horizontally() {
    // The light-weight spaceship repeats with period four, translated.
    let mut g = GameOfLife::new(30, 10);
    let lwss = Stamp::lwss();
    g.stamp(20, 3, &lwss, None);
    let mut start: Vec<(usize, usize)> = Vec::new();
    for x in 0..30 {
        for y in 0..10 {
            if g.get_cell(x, y) {
                start.push((x, y));
            }
        }
    }
    for _ in 0..4 {
        g.update();
    }
    let mut after: Vec<(usize, usize)> = Vec::new();
    for x in 0..30 {
        for y in 0..10 {
            if g.get_cell(x, y) {
                after.push((x, y));
            }
        }
    }
    let shifted_left: Vec<(usize, usize)> = start.iter().map(|&(x, y)| (x - 2, y)).collect();
    let shifted_right: Vec<(usize, usize)> = start.iter().map(|&(x, y)| (x + 2, y)).collect();
    assert!(
        after == shifted_left || after == shifted_right,
        "the spaceship did not translate by two columns",
    );
}

#[test]
fn set_color_variation_clamps() {
    let mut g = GameOfLife::new(4, 4);
    g.set_color_variation(2_000_000);
    g.set_color_variation(0);
    // A newborn from a uniform neighborhood now inherits exactly.
    let hue = Hue::new(400_000);
    g.set_cell_with_color(1, 1, true, Some(hue));
    g.set_cell_with_color(2, 1, true, Some(hue));
    g.set_cell_with_color(1, 2, true, Some(hue));
    g.update();
    assert_eq!(g.get_cell_color(2, 2), Some(hue));
}

#[test]
fn bottle_sets_its_exact_cells() {
    // Spot-check the bottle bitmap around its asymmetric clusters: the
    // listed cells are 1-bits, their neighbors in the same rows are not.
    let mut g = GameOfLife::new(15, 15);
    g.stamp(0, 0, &Stamp::bottle(), None);
    let set: [(usize, usize); 8] = [
        (11, 6), (12, 6), (13, 6),
        (2, 10), (3, 10), (9, 10),
        (11, 11), (8, 13),
    ];
    for (x, y) in set {
        assert!(g.get_cell(x, y), "cell ({}, {}) must be set", x, y);
    }
    let clear: [(usize, usize); 8] = [
        (10, 6), (14, 6),
        (8, 10), (10, 10),
        (7, 11), (12, 11),
        (10, 13), (7, 13),
    ];
    for (x, y) in clear {
        assert!(!g.get_cell(x, y), "cell ({}, {}) must be clear", x, y);
    }
    assert_eq!(g.get_stats().0, 32);
}

#[test]
fn heart_and_giant_flower_set_their_exact_cells() {
    // The heart: a nine-cell diamond, columns {3}, {2,4}, {1,3,5}, {2,4},
    // {3} on rows 1 through 5.
    let mut g = GameOfLife::new(6, 6);
    g.stamp(0, 0, &Stamp::heart(), None);
    let heart: [(usize, usize); 9] = [
        (3, 1),
        (2, 2), (4, 2),
        (1, 3), (3, 3), (5, 3),
        (2, 4), (4, 4),
        (3, 5),
    ];
    for x in 0..6 {
        for y in 0..6 {
            assert_eq!(g.get_cell(x, y), heart.contains(&(x, y)), "heart cell ({}, {})", x, y);
        }
    }
    // The giant flower's inner rings: columns {2,6} on rows 2 and 6,
    // columns {3,5} on rows 3 and 5 — diagonal petals, not a ring.
    let mut f = GameOfLife::new(9, 9);
    f.stamp(0, 0, &Stamp::giant_flower(), None);
    for (x, y) in [(2, 2), (6, 2), (3, 3), (5, 3), (3, 5), (5, 5), (2, 6), (6, 6)] {
        assert!(f.get_cell(x, y), "giant flower cell ({}, {}) must be set", x, y);
    }
    for (x, y) in [(3, 2), (5, 2), (2, 3), (6, 3), (2, 5), (6, 5), (3, 6), (5, 6)] {
        assert!(!f.get_cell(x, y), "giant flower cell ({}, {}) must be clear", x, y);
    }
}
