use game_of_life::grid::GameOfLife;
use game_of_life::hue::{Hue, Rgba};
use game_of_life::surface::Surface;

const BLACK: Rgba = Rgba { r: 0, g: 0, b: 0, a: 255 };
const WHITE: Rgba = Rgba { r: 255, g: 255, b: 255, a: 255 };
const GRAY: Rgba = Rgba { r: 7, g: 7, b: 7, a: 255 };

#[test]
fn render_paints_scaled_blocks() {
    // A 2x1 grid: a red cell next to a dead cell, drawn at offset (1, 1)
    // with scale 2 onto a 6x4 surface primed with gray.
    let mut g = GameOfLife::new(2, 1);
    g.set_cell_with_color(0, 0, true, Some(Hue::new(0)));
    let mut s = Surface::new(6, 4, GRAY);
    g.render(&mut s, 1, 1, 2);
    let red = Rgba { r: 255, g: 0, b: 0, a: 255 };
    for px in 0..6usize {
        for py in 0..4usize {
            let expected = if (1..3).contains(&px) && (1..3).contains(&py) {
                red
            } else if (3..5).contains(&px) && (1..3).contains(&py) {
                BLACK
            } else {
                GRAY
            };
            assert_eq!(s.pixel(px, py), expected, "pixel ({}, {})", px, py);
        }
    }
}

#[test]
fn render_uses_alive_color_for_colorless_cells() {
    let mut g = GameOfLife::new(1, 1);
    g.set_cell_with_color(0, 0, true, None);
    let mut s = Surface::new(3, 3, GRAY);
    g.render(&mut s, 0, 0, 1);
    assert_eq!(s.pixel(0, 0), WHITE);
    assert_eq!(s.pixel(1, 0), GRAY);
    assert_eq!(s.pixel(0, 1), GRAY);
}

#[test]
fn render_clips_at_the_surface_edge() {
    // The grid's rectangle hangs over the surface; the overhang is dropped.
    let mut g = GameOfLife::new(3, 3);
    for x in 0..3 {
        for y in 0..3 {
            g.set_cell_with_color(x, y, true, Some(Hue::new(0)));
        }
    }
    let mut s = Surface::new(4, 4, GRAY);
    g.render(&mut s, 2, 2, 4);
    let red = Rgba { r: 255, g: 0, b: 0, a: 255 };
    for px in 0..4usize {
        for py in 0..4usize {
            let expected = if px >= 2 && py >= 2 { red } else { GRAY };
            assert_eq!(s.pixel(px, py), expected, "pixel ({}, {})", px, py);
        }
    }
}

#[test]
fn render_with_scale_zero_draws_nothing() {
    let mut g = GameOfLife::new(4, 4);
    g.set_cell(1, 1, true);
    let mut s = Surface::new(5, 5, GRAY);
    g.render(&mut s, 0, 0, 0);
    for px in 0..5usize {
        for py in 0..5usize {
            assert_eq!(s.pixel(px, py), GRAY);
        }
    }
}

#[test]
fn surface_drops_out_of_range_writes() {
    let mut s = Surface::new(2, 2, BLACK);
    s.set_current_color(WHITE);
    s.set_pixel(5, 0);
    s.set_pixel(0, 7);
    for px in 0..2usize {
        for py in 0..2usize {
            assert_eq!(s.pixel(px, py), BLACK);
        }
    }
    s.set_pixel(1, 1);
    assert_eq!(s.pixel(1, 1), WHITE);
    assert_eq!(s.pixel(0, 0), BLACK);
}

#[test]
fn surface_fill_repaints_everything() {
    let mut s = Surface::new(3, 2, BLACK);
    s.set_current_color(WHITE);
    s.set_pixel(0, 0);
    s.fill(GRAY);
    for px in 0..3usize {
        for py in 0..2usize {
            assert_eq!(s.pixel(px, py), GRAY);
        }
    }
    assert_eq!(s.width(), 3);
    assert_eq!(s.height(), 2);
}

#[test]
fn render_honors_configured_colors() {
    let blue = Rgba { r: 0, g: 0, b: 200, a: 255 };
    let green = Rgba { r: 0, g: 200, b: 0, a: 255 };
    let mut g = GameOfLife::new(2, 1);
    g.set_alive_color(green);
    g.set_dead_color(blue);
    g.set_cell_with_color(0, 0, true, None);
    let mut s = Surface::new(2, 1, GRAY);
    g.render(&mut s, 0, 0, 1);
    assert_eq!(s.pixel(0, 0), green);
    assert_eq!(s.pixel(1, 0), blue);
}
