use game_of_life::grid::GameOfLife;
use game_of_life::hue::{Hue, Rgba, HUE_UNIT};
use game_of_life::rng::Rng64;
use game_of_life::trig::{atan2_units_exec, average_hue, cos_units_exec, sin_units_exec};

#[test]
fn hue_new_wraps_by_euclidean_remainder() {
    assert_eq!(Hue::new(0).units(), 0);
    assert_eq!(Hue::new(250_000).units(), 250_000);
    assert_eq!(Hue::new(1_250_000).units(), 250_000);
    assert_eq!(Hue::new(-250_000).units(), 750_000);
    assert_eq!(Hue::new(-1).units(), 999_999);
    assert_eq!(Hue::new(1_000_000).units(), 0);
}

#[test]
fn hue_addition_is_modular() {
    let a = Hue::new(700_000);
    let b = Hue::new(600_000);
    assert_eq!(a.add(b).units(), 300_000);
    let c = Hue::new(1);
    assert_eq!(Hue::new(999_999).add(c).units(), 0);
    assert_eq!(Hue::new(0).add(Hue::new(0)).units(), 0);
}

#[test]
fn hue_to_color_matches_the_hsv_sectors() {
    // Red at hue 0.
    assert_eq!(Hue::new(0).to_color(), Rgba { r: 255, g: 0, b: 0, a: 255 });
    // Chartreuse at 0.25: channel floor(255 * 0.5) = 127.
    assert_eq!(Hue::new(250_000).to_color(), Rgba { r: 127, g: 255, b: 0, a: 255 });
    // Green at one third.
    assert_eq!(Hue::new(333_333).to_color(), Rgba { r: 0, g: 255, b: 0, a: 255 });
    // Cyan at one half.
    assert_eq!(Hue::new(500_000).to_color(), Rgba { r: 0, g: 255, b: 255, a: 255 });
    // Blue at two thirds.
    assert_eq!(Hue::new(666_667).to_color(), Rgba { r: 0, g: 0, b: 255, a: 255 });
    // Magenta-ish at 0.85: sector 5, x = 2 - 5.1 = 0.9 -> floor(255 * 0.9).
    assert_eq!(Hue::new(850_000).to_color(), Rgba { r: 255, g: 0, b: 229, a: 255 });
}

#[test]
fn average_of_identical_hues_is_exact() {
    let hues: Vec<Hue> = vec![Hue::new(170_000), Hue::new(170_000), Hue::new(170_000)];
    assert_eq!(average_hue(&hues).units(), 170_000);
    let one: Vec<Hue> = vec![Hue::new(987_654)];
    assert_eq!(average_hue(&one).units(), 987_654);
}

#[test]
fn circular_mean_crosses_the_wrap_boundary() {
    // Hues 0.95, 0.00 and 0.05 average to 0.00 on the wheel, not to 1/3.
    let hues: Vec<Hue> = vec![Hue::new(950_000), Hue::new(0), Hue::new(50_000)];
    let mean: u32 = average_hue(&hues).units();
    let distance: u32 = mean.min(HUE_UNIT - mean);
    assert!(distance <= 10, "mean {} is not near zero", mean);
}

#[test]
fn newborn_inherits_uniform_neighborhood_hue_exactly() {
    // A blinker of hue 0.25 with no color variation: the cells born at the
    // ends carry exactly the circular mean 0.25.
    let mut g = GameOfLife::new(5, 5);
    g.set_color_variation(0);
    let hue = Hue::new(250_000);
    g.set_cell_with_color(1, 2, true, Some(hue));
    g.set_cell_with_color(2, 2, true, Some(hue));
    g.set_cell_with_color(3, 2, true, Some(hue));
    g.update();
    assert_eq!(g.get_cell_color(2, 1), Some(hue));
    assert_eq!(g.get_cell_color(2, 3), Some(hue));
    assert_eq!(g.get_cell_color(2, 2), Some(hue));
}

#[test]
fn wrap_boundary_birth_in_the_grid() {
    // The cell born under three neighbors with hues 0.95, 0.00, 0.05 gets
    // a hue within 1e-5 of zero.
    let mut g = GameOfLife::new(3, 3);
    g.set_color_variation(0);
    g.set_cell_with_color(0, 0, true, Some(Hue::new(950_000)));
    g.set_cell_with_color(1, 0, true, Some(Hue::new(0)));
    g.set_cell_with_color(2, 0, true, Some(Hue::new(50_000)));
    g.update();
    assert!(g.get_cell(1, 1));
    let mean: u32 = g.get_cell_color(1, 1).expect("newborn must have a hue").units();
    let distance: u32 = mean.min(HUE_UNIT - mean);
    assert!(distance <= 10, "born hue {} is not near zero", mean);
}

#[test]
fn birth_from_colorless_neighbors_gets_a_fresh_hue() {
    // Three live neighbors whose hues are all absent: the newborn cell is
    // colored anyway, which distinguishes "no live neighbors" from "live
    // neighbors with no color".
    let mut g = GameOfLife::new(3, 3);
    g.set_cell_with_color(0, 0, true, None);
    g.set_cell_with_color(1, 0, true, None);
    g.set_cell_with_color(2, 0, true, None);
    g.update();
    assert!(g.get_cell(1, 1));
    assert!(g.get_cell_color(1, 1).is_some());
}

#[test]
fn dead_cells_have_no_hue_after_a_step() {
    let mut g = GameOfLife::new(7, 7);
    g.set_cell_with_color(1, 1, true, Some(Hue::new(10)));
    g.set_cell(3, 3, true);
    g.set_cell(3, 4, true);
    g.set_cell(3, 2, true);
    g.set_cell(4, 3, true);
    for _ in 0..3 {
        g.update();
        for x in 0..7 {
            for y in 0..7 {
                if !g.get_cell(x, y) {
                    assert_eq!(g.get_cell_color(x, y), None);
                }
            }
        }
    }
}

fn seeded_grid(seed: u64, cv: u32) -> GameOfLife {
    let mut g = GameOfLife::new_with_seed(9, 9, seed);
    g.set_color_variation(cv);
    let cells: [(usize, usize, i64); 8] = [
        (2, 2, 0),
        (3, 2, 120_000),
        (4, 2, 240_000),
        (4, 3, 360_000),
        (3, 4, 480_000),
        (2, 4, 600_000),
        (6, 6, 720_000),
        (6, 7, 840_000),
    ];
    for (x, y, u) in cells {
        g.set_cell_with_color(x, y, true, Some(Hue::new(u)));
    }
    g
}

fn snapshot(g: &GameOfLife) -> Vec<(bool, Option<Hue>)> {
    let mut out: Vec<(bool, Option<Hue>)> = Vec::new();
    for x in 0..g.width() as usize {
        for y in 0..g.height() as usize {
            out.push((g.get_cell(x, y), g.get_cell_color(x, y)));
        }
    }
    out
}

#[test]
fn fully_colored_grids_step_deterministically() {
    // Two grids with different generator seeds but the same explicit-hue
    // seeding and no color variation produce the same generations.
    let mut a = seeded_grid(1, 0);
    let mut b = seeded_grid(999, 0);
    for _ in 0..6 {
        a.update();
        b.update();
        assert_eq!(snapshot(&a), snapshot(&b));
    }
}

#[test]
fn hue_perturbation_is_deterministic() {
    // The same, with color variation switched on: the perturbation depends
    // only on the cell coordinates, so the runs still agree.
    let mut a = seeded_grid(7, 50_000);
    let mut b = seeded_grid(123_456, 50_000);
    for _ in 0..6 {
        a.update();
        b.update();
        assert_eq!(snapshot(&a), snapshot(&b));
    }
}

#[test]
fn perturbation_spreads_newborn_hues() {
    // With color variation on, two cells born in the same step from the
    // same uniform neighborhood hue get distinct perturbed hues.
    let mut g = GameOfLife::new(5, 5);
    g.set_color_variation(50_000);
    let hue = Hue::new(500_000);
    g.set_cell_with_color(1, 2, true, Some(hue));
    g.set_cell_with_color(2, 2, true, Some(hue));
    g.set_cell_with_color(3, 2, true, Some(hue));
    g.update();
    let top: u32 = g.get_cell_color(2, 1).unwrap().units();
    let bottom: u32 = g.get_cell_color(2, 3).unwrap().units();
    assert_ne!(top, bottom);
    // Both stay within the variation of the mean.
    assert!(top.abs_diff(500_000) <= 50_000);
    assert!(bottom.abs_diff(500_000) <= 50_000);
}

#[test]
fn set_cell_colors_fresh_cells_reproducibly() {
    let mut a = GameOfLife::new_with_seed(4, 4, 42);
    let mut b = GameOfLife::new_with_seed(4, 4, 42);
    a.set_cell(1, 1, true);
    b.set_cell(1, 1, true);
    let ha = a.get_cell_color(1, 1).expect("a live set cell gets a hue");
    let hb = b.get_cell_color(1, 1).expect("a live set cell gets a hue");
    assert_eq!(ha, hb);
    assert!(ha.units() < HUE_UNIT);
    // Turning the cell off clears the hue.
    a.set_cell(1, 1, false);
    assert_eq!(a.get_cell_color(1, 1), None);
}

#[test]
fn generators_replay_their_seed() {
    let mut a = Rng64::seeded(0xDEAD_BEEF);
    let mut b = Rng64::seeded(0xDEAD_BEEF);
    let first: u64 = a.next_u64();
    assert_eq!(first, b.next_u64());
    assert_eq!(a.next_u64(), b.next_u64());
    let mut c = Rng64::seeded(0xDEAD_BEF0);
    assert_ne!(first, c.next_u64());
    let h: Hue = Hue::random(&mut a);
    let hb: Hue = Hue::random(&mut b);
    assert_eq!(h, hb);
    assert!(h.units() < HUE_UNIT);
}

#[test]
fn fixed_point_trigonometry_is_exact_at_quarter_turns() {
    assert_eq!(sin_units_exec(0), 0);
    assert_eq!(sin_units_exec(250_000), 1_000_000);
    assert_eq!(sin_units_exec(500_000), 0);
    assert_eq!(sin_units_exec(750_000), -1_000_000);
    assert_eq!(cos_units_exec(0), 1_000_000);
    assert_eq!(cos_units_exec(250_000), 0);
    assert_eq!(cos_units_exec(500_000), -1_000_000);
    assert_eq!(cos_units_exec(750_000), 0);
    // The four axis directions map to the four quarter angles.
    assert_eq!(atan2_units_exec(0, 5), 0);
    assert_eq!(atan2_units_exec(5, 0), 250_000);
    assert_eq!(atan2_units_exec(0, -5), 500_000);
    assert_eq!(atan2_units_exec(-5, 0), 750_000);
    // Diagonals hit the eighth turns exactly.
    assert_eq!(atan2_units_exec(3, 3), 125_000);
    assert_eq!(atan2_units_exec(3, -3), 375_000);
}

#[test]
fn circular_mean_is_rotation_equivariant() {
    // Rotating every input hue rotates the circular mean by the same
    // amount, within 1e-5 of a turn, as long as the unit vectors do not
    // nearly cancel.
    let cases: Vec<(Vec<i64>, i64)> = vec![
        (vec![0, 100_000], 450_000),
        (vec![950_000, 0, 50_000], 333_333),
        (vec![10_000, 20_000, 30_000, 40_000], 777_777),
        (vec![123_456, 654_321, 111_111], 250_000),
        (vec![900_000, 950_000, 100_000, 50_000, 0], 499_999),
    ];
    for (hues, d) in cases {
        let plain: Vec<Hue> = hues.iter().map(|&u| Hue::new(u)).collect();
        let rotated: Vec<Hue> = hues.iter().map(|&u| Hue::new(u + d)).collect();
        let shifted_mean: u32 = average_hue(&plain).add(Hue::new(d)).units();
        let rotated_mean: u32 = average_hue(&rotated).units();
        let diff: u32 = shifted_mean.abs_diff(rotated_mean);
        let distance: u32 = diff.min(HUE_UNIT - diff);
        assert!(
            distance <= 10,
            "rotation by {} moved the mean by {} millionths",
            d,
            distance,
        );
    }
}
