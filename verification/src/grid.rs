use vstd::prelude::*;

use crate::hue::{hue_units_of, rand_hue_units, Hue, Rgba, HUE_UNIT};
use crate::laws::{
    lemma_block_maps, lemma_count_live_zero, lemma_hues_upto_len, lemma_idx_bounds,
    lemma_idx_decompose, lemma_idx_injective, lemma_next_hue_in_range, lemma_step_hue_coherent,
};
use vstd::arithmetic::div_mod::{
    lemma_div_by_multiple_is_strongly_ordered, lemma_div_multiples_vanish,
    lemma_fundamental_div_mod_converse_mod, lemma_multiply_divide_lt, lemma_small_mod,
};
use crate::rng::{mix64_exec, rng_next_state, rng_output, Rng64};
use crate::surface::{Surface, SurfaceView};
use crate::trig::mean_hue_units;
use crate::view::{cell_hash, count_live, fallback_units, moore_dx, moore_dy, perturb_offset, GridView};

verus! {

/// The color variation a fresh grid starts with: 0.05 of a turn.
pub const DEFAULT_COLOR_VARIATION: u32 = 50_000;

/// The seed a grid constructed without an explicit seed starts with.
pub const DEFAULT_SEED: u64 = 0x0123_4567_89AB_CDEF;

/// A colored Game of Life grid: a double-buffered aliveness layer and hue
/// layer over a fixed rectangle, plus the display colors, the color
/// variation, and the generator that supplies fresh hues. Layers are
/// stored flat, cell `(x, y)` at index `x * height + y`.
pub struct GameOfLife {
    width: u32,
    height: u32,
    cur_alive: Vec<bool>,
    next_alive: Vec<bool>,
    cur_hue: Vec<Option<u32>>,
    next_hue: Vec<Option<u32>>,
    alive_color: Rgba,
    dead_color: Rgba,
    color_variation: u32,
    rng: Rng64,
}

impl View for GameOfLife {
    type V = GridView;

    closed spec fn view(&self) -> GridView {
        GridView {
            width: self.width as int,
            height: self.height as int,
            alive: self.cur_alive@,
            hue: self.cur_hue@,
            color_variation: self.color_variation as int,
            alive_color: self.alive_color,
            dead_color: self.dead_color,
        }
    }
}

fn filled<T: Copy>(n: usize, v: T) -> (r: Vec<T>)
    ensures
        r@.len() == n,
        forall|i: int| 0 <= i < n ==> #[trigger] r@[i] == v,
{
    let mut r: Vec<T> = Vec::new();
    while r.len() < n
        invariant
            r@.len() <= n,
            forall|i: int| 0 <= i < r@.len() ==> #[trigger] r@[i] == v,
        decreases n - r@.len(),
    {
        r.push(v);
    }
    r
}

fn moore_offset(k: usize) -> (r: (i64, i64))
    requires
        k < 8,
    ensures
        r.0 == moore_dx(k as int),
        r.1 == moore_dy(k as int),
{
    if k == 0 {
        (-1, -1)
    } else if k == 1 {
        (-1, 0)
    } else if k == 2 {
        (-1, 1)
    } else if k == 3 {
        (0, -1)
    } else if k == 4 {
        (0, 1)
    } else if k == 5 {
        (1, -1)
    } else if k == 6 {
        (1, 0)
    } else {
        (1, 1)
    }
}


/// Paint every pixel of the `scale` x `scale` block of cell `(cx, cy)`
/// that lies on the surface with the given color, which also becomes the
/// surface's current color.
fn fill_block(surface: &mut Surface, ox: u32, oy: u32, scale: u32, cx: u32, cy: u32, color: Rgba)
    requires
        old(surface)@.wf(),
    ensures
        final(surface)@.wf(),
        final(surface)@.width == old(surface)@.width,
        final(surface)@.height == old(surface)@.height,
        final(surface)@.current == color,
        forall|px: int, py: int|
            old(surface)@.in_bounds(px, py) ==> #[trigger] final(surface)@.pixel_at(px, py) == (
            if ox + cx * scale <= px < ox + cx * scale + scale && oy + cy * scale <= py < oy + cy
                * scale + scale {
                color
            } else {
                old(surface)@.pixel_at(px, py)
            }),
{
    surface.set_current_color(color);
    proof {
        assert((cx as int) * (scale as int) <= 0xFFFF_FFFF * 0xFFFF_FFFF && (cy as int) * (
        scale as int) <= 0xFFFF_FFFF * 0xFFFF_FFFF) by (nonlinear_arith)
            requires
                0 <= cx <= 0xFFFF_FFFF,
                0 <= cy <= 0xFFFF_FFFF,
                0 <= scale <= 0xFFFF_FFFF,
        ;
    }
    let bx: u64 = ox as u64 + (cx as u64) * (scale as u64);
    let by: u64 = oy as u64 + (cy as u64) * (scale as u64);
    let ghost s0 = old(surface)@;
    let ghost scur = surface@;
    let mut sy: u32 = 0;
    while sy < scale
        invariant
            sy <= scale,
            s0 == old(surface)@,
            scur == (SurfaceView { current: color, ..s0 }),
            surface@.wf(),
            surface@.width == s0.width,
            surface@.height == s0.height,
            surface@.current == color,
            bx == ox + cx * scale,
            by == oy + cy * scale,
            bx + scale <= u64::MAX,
            by + scale <= u64::MAX,
            forall|px: int, py: int|
                s0.in_bounds(px, py) ==> #[trigger] surface@.pixel_at(px, py) == (if bx <= px < bx
                    + scale && by <= py < by + sy {
                    color
                } else {
                    s0.pixel_at(px, py)
                }),
        decreases scale - sy,
    {
        let mut sx: u32 = 0;
        while sx < scale
            invariant
                sx <= scale,
                sy < scale,
                s0 == old(surface)@,
                scur == (SurfaceView { current: color, ..s0 }),
                surface@.wf(),
                surface@.width == s0.width,
                surface@.height == s0.height,
                surface@.current == color,
                bx == ox + cx * scale,
                by == oy + cy * scale,
                bx + scale <= u64::MAX,
                by + scale <= u64::MAX,
                forall|px: int, py: int|
                    s0.in_bounds(px, py) ==> #[trigger] surface@.pixel_at(px, py) == (if (bx <= px
                        < bx + scale && by <= py < by + sy) || (py == by + sy && bx <= px < bx
                        + sx) {
                        color
                    } else {
                        s0.pixel_at(px, py)
                    }),
            decreases scale - sx,
        {
            let px: u64 = bx + sx as u64;
            let py: u64 = by + sy as u64;
            if px < surface.width() as u64 && py < surface.height() as u64 {
                surface.set_pixel(px as usize, py as usize);
            }
            sx += 1;
        }
        sy += 1;
    }
}

impl GameOfLife {
    /// Well-formedness: the visible state is well formed and the scratch
    /// buffers of the double buffering match the layers in length.
    pub closed spec fn wf(self) -> bool {
        &&& self@.wf()
        &&& self.next_alive@.len() == self@.alive.len()
        &&& self.next_hue@.len() == self@.hue.len()
    }

    /// The state of the grid's hue generator.
    pub closed spec fn rng_state(self) -> u64 {
        self.rng@
    }

    /// A well-formed grid has a well-formed view, so the view-level
    /// lemmas (such as the bound on the live-cell count) apply to any
    /// grid a client holds.
    pub proof fn lemma_wf_view(self)
        requires
            self.wf(),
        ensures
            self@.wf(),
    {
    }

    /// A grid seeded for reproducibility: all cells dead, all hues absent,
    /// default display colors and color variation.
    pub fn new_with_seed(width: u32, height: u32, seed: u64) -> (g: GameOfLife)
        requires
            1 <= width,
            1 <= height,
            width * height <= u32::MAX,
        ensures
            g.wf(),
            g@.width == width,
            g@.height == height,
            g@.color_variation == DEFAULT_COLOR_VARIATION,
            g@.alive_color == (Rgba { r: 255, g: 255, b: 255, a: 255 }),
            g@.dead_color == (Rgba { r: 0, g: 0, b: 0, a: 255 }),
            g.rng_state() == seed,
            forall|x: int, y: int| g@.in_bounds(x, y) ==> !#[trigger] g@.alive_at(x, y),
            forall|x: int, y: int| g@.in_bounds(x, y) ==> #[trigger] g@.hue_at(x, y) is None,
            g@.alive_count() == 0,
    {
        let n: usize = (width as usize) * (height as usize);
        let g = GameOfLife {
            width,
            height,
            cur_alive: filled(n, false),
            next_alive: filled(n, false),
            cur_hue: filled(n, None),
            next_hue: filled(n, None),
            alive_color: Rgba { r: 255, g: 255, b: 255, a: 255 },
            dead_color: Rgba { r: 0, g: 0, b: 0, a: 255 },
            color_variation: DEFAULT_COLOR_VARIATION,
            rng: Rng64::seeded(seed),
        };
        proof {
            assert forall|x: int, y: int| g@.in_bounds(x, y) implies !#[trigger] g@.alive_at(
                x,
                y,
            ) by {
                lemma_idx_bounds(g@, x, y);
            }
            assert forall|x: int, y: int| g@.in_bounds(x, y) implies #[trigger] g@.hue_at(x, y)
                is None by {
                lemma_idx_bounds(g@, x, y);
            }
            lemma_count_live_zero(g@.alive, g@.alive.len() as int);
        }
        g
    }

    /// A fresh grid with the default seed; see `new_with_seed`.
    pub fn new(width: u32, height: u32) -> (g: GameOfLife)
        requires
            1 <= width,
            1 <= height,
            width * height <= u32::MAX,
        ensures
            g.wf(),
            g@.width == width,
            g@.height == height,
            g@.color_variation == DEFAULT_COLOR_VARIATION,
            g@.alive_color == (Rgba { r: 255, g: 255, b: 255, a: 255 }),
            g@.dead_color == (Rgba { r: 0, g: 0, b: 0, a: 255 }),
            g.rng_state() == DEFAULT_SEED,
            forall|x: int, y: int| g@.in_bounds(x, y) ==> !#[trigger] g@.alive_at(x, y),
            forall|x: int, y: int| g@.in_bounds(x, y) ==> #[trigger] g@.hue_at(x, y) is None,
            g@.alive_count() == 0,
    {
        GameOfLife::new_with_seed(width, height, DEFAULT_SEED)
    }

    /// Number of columns.
    pub fn width(&self) -> (w: u32)
        ensures
            w == self@.width,
    {
        self.width
    }

    /// Number of rows.
    pub fn height(&self) -> (h: u32)
        ensures
            h == self@.height,
    {
        self.height
    }

    /// Kill every cell and clear every hue.
    pub fn clear_grid(&mut self)
        requires
            old(self).wf(),
        ensures
            final(self).wf(),
            final(self)@.width == old(self)@.width,
            final(self)@.height == old(self)@.height,
            final(self)@.color_variation == old(self)@.color_variation,
            final(self)@.alive_color == old(self)@.alive_color,
            final(self)@.dead_color == old(self)@.dead_color,
            final(self).rng_state() == old(self).rng_state(),
            forall|x: int, y: int|
                final(self)@.in_bounds(x, y) ==> !#[trigger] final(self)@.alive_at(x, y),
            forall|x: int, y: int|
                final(self)@.in_bounds(x, y) ==> #[trigger] final(self)@.hue_at(x, y) is None,
            final(self)@.alive_count() == 0,
    {
        let n: usize = self.cur_alive.len();
        let mut i: usize = 0;
        while i < n
            invariant
                i <= n,
                old(self).wf(),
                n == old(self)@.alive.len(),
                self.cur_alive@.len() == n,
                self.cur_hue@.len() == n,
                self.width == old(self).width,
                self.height == old(self).height,
                self.color_variation == old(self).color_variation,
                self.alive_color == old(self).alive_color,
                self.dead_color == old(self).dead_color,
                self.rng == old(self).rng,
                self.next_alive == old(self).next_alive,
                self.next_hue == old(self).next_hue,
                forall|j: int| 0 <= j < i ==> !#[trigger] self.cur_alive@[j],
                forall|j: int| 0 <= j < i ==> #[trigger] self.cur_hue@[j] is None,
            decreases n - i,
        {
            self.cur_alive[i] = false;
            self.cur_hue[i] = None;
            i += 1;
        }
        proof {
            assert forall|x: int, y: int| final(self)@.in_bounds(x, y) implies
                !#[trigger] final(self)@.alive_at(x, y) by {
                lemma_idx_bounds(final(self)@, x, y);
            }
            assert forall|x: int, y: int| final(self)@.in_bounds(x, y) implies
                #[trigger] final(self)@.hue_at(x, y) is None by {
                lemma_idx_bounds(final(self)@, x, y);
            }
            lemma_count_live_zero(final(self)@.alive, final(self)@.alive.len() as int);
        }
    }

    /// Set the aliveness of one cell; a cell made alive receives a fresh
    /// hue from the grid's generator, a cell made dead loses its hue.
    /// Out-of-range coordinates are silently ignored.
    pub fn set_cell(&mut self, x: usize, y: usize, alive: bool)
        requires
            old(self).wf(),
        ensures
            final(self).wf(),
            final(self)@.width == old(self)@.width,
            final(self)@.height == old(self)@.height,
            final(self)@.color_variation == old(self)@.color_variation,
            final(self)@.alive_color == old(self)@.alive_color,
            final(self)@.dead_color == old(self)@.dead_color,
            !old(self)@.in_bounds(x as int, y as int) ==> *final(self) == *old(self),
            old(self)@.in_bounds(x as int, y as int) ==> final(self)@.alive_at(
                x as int,
                y as int,
            ) == alive,
            old(self)@.in_bounds(x as int, y as int) ==> final(self)@.hue_at(x as int, y as int)
                == (if alive {
                Some(rand_hue_units(old(self).rng_state()))
            } else {
                None::<u32>
            }),
            final(self).rng_state() == (if old(self)@.in_bounds(x as int, y as int) && alive {
                rng_next_state(old(self).rng_state())
            } else {
                old(self).rng_state()
            }),
            forall|a: int, b: int|
                old(self)@.in_bounds(a, b) && !(a == x && b == y) ==> #[trigger] final(self)@.alive_at(a, b) == old(self)@.alive_at(a, b),
            forall|a: int, b: int|
                old(self)@.in_bounds(a, b) && !(a == x && b == y) ==> #[trigger] final(self)@.hue_at(a, b) == old(self)@.hue_at(a, b),
    {
        let w: usize = self.width as usize;
        let h: usize = self.height as usize;
        if x < w && y < h {
            proof {
                lemma_idx_bounds(self@, x as int, y as int);
            }
            let i: usize = x * h + y;
            self.cur_alive[i] = alive;
            if alive {
                let fresh: Hue = Hue::random(&mut self.rng);
                self.cur_hue[i] = Some(fresh.units());
            } else {
                self.cur_hue[i] = None;
            }
            proof {
                assert forall|a: int, b: int|
                    old(self)@.in_bounds(a, b) && !(a == x && b == y) implies #[trigger] final(self)@.alive_at(a, b) == old(self)@.alive_at(a, b) by {
                    lemma_idx_bounds(old(self)@, a, b);
                    if old(self)@.idx(a, b) == i {
                        lemma_idx_injective(old(self)@, a, b, x as int, y as int);
                    }
                }
                assert forall|a: int, b: int|
                    old(self)@.in_bounds(a, b) && !(a == x && b == y) implies #[trigger] final(self)@.hue_at(a, b) == old(self)@.hue_at(a, b) by {
                    lemma_idx_bounds(old(self)@, a, b);
                    if old(self)@.idx(a, b) == i {
                        lemma_idx_injective(old(self)@, a, b, x as int, y as int);
                    }
                }
            }
        }
    }

    /// Set the aliveness of one cell together with exactly the given hue
    /// (including none). Out-of-range coordinates are silently ignored;
    /// the generator is untouched.
    pub fn set_cell_with_color(&mut self, x: usize, y: usize, alive: bool, hue: Option<Hue>)
        requires
            old(self).wf(),
        ensures
            final(self).wf(),
            final(self)@.width == old(self)@.width,
            final(self)@.height == old(self)@.height,
            final(self)@.color_variation == old(self)@.color_variation,
            final(self)@.alive_color == old(self)@.alive_color,
            final(self)@.dead_color == old(self)@.dead_color,
            final(self).rng_state() == old(self).rng_state(),
            !old(self)@.in_bounds(x as int, y as int) ==> *final(self) == *old(self),
            old(self)@.in_bounds(x as int, y as int) ==> final(self)@.alive_at(
                x as int,
                y as int,
            ) == alive,
            old(self)@.in_bounds(x as int, y as int) ==> final(self)@.hue_at(x as int, y as int)
                == hue_units_of(hue),
            forall|a: int, b: int|
                old(self)@.in_bounds(a, b) && !(a == x && b == y) ==> #[trigger] final(self)@.alive_at(a, b) == old(self)@.alive_at(a, b),
            forall|a: int, b: int|
                old(self)@.in_bounds(a, b) && !(a == x && b == y) ==> #[trigger] final(self)@.hue_at(a, b) == old(self)@.hue_at(a, b),
    {
        let w: usize = self.width as usize;
        let h: usize = self.height as usize;
        if x < w && y < h {
            proof {
                lemma_idx_bounds(self@, x as int, y as int);
            }
            let i: usize = x * h + y;
            self.cur_alive[i] = alive;
            let units: Option<u32> = match hue {
                Some(hv) => Some(hv.units()),
                None => None,
            };
            self.cur_hue[i] = units;
            proof {
                assert forall|a: int, b: int|
                    old(self)@.in_bounds(a, b) && !(a == x && b == y) implies #[trigger] final(self)@.alive_at(a, b) == old(self)@.alive_at(a, b) by {
                    lemma_idx_bounds(old(self)@, a, b);
                    if old(self)@.idx(a, b) == i {
                        lemma_idx_injective(old(self)@, a, b, x as int, y as int);
                    }
                }
                assert forall|a: int, b: int|
                    old(self)@.in_bounds(a, b) && !(a == x && b == y) implies #[trigger] final(self)@.hue_at(a, b) == old(self)@.hue_at(a, b) by {
                    lemma_idx_bounds(old(self)@, a, b);
                    if old(self)@.idx(a, b) == i {
                        lemma_idx_injective(old(self)@, a, b, x as int, y as int);
                    }
                }
            }
        }
    }

    /// Whether the cell is alive; out-of-range coordinates read as dead.
    pub fn get_cell(&self, x: usize, y: usize) -> (alive: bool)
        requires
            self.wf(),
        ensures
            alive == (self@.in_bounds(x as int, y as int) && self@.alive_at(x as int, y as int)),
    {
        let w: usize = self.width as usize;
        let h: usize = self.height as usize;
        if x < w && y < h {
            proof {
                lemma_idx_bounds(self@, x as int, y as int);
            }
            self.cur_alive[x * h + y]
        } else {
            false
        }
    }

    /// The hue of the cell, if any; out-of-range coordinates read as
    /// colorless.
    pub fn get_cell_color(&self, x: usize, y: usize) -> (hue: Option<Hue>)
        requires
            self.wf(),
        ensures
            hue_units_of(hue) == (if self@.in_bounds(x as int, y as int) {
                self@.hue_at(x as int, y as int)
            } else {
                None::<u32>
            }),
    {
        let w: usize = self.width as usize;
        let h: usize = self.height as usize;
        if x < w && y < h {
            proof {
                lemma_idx_bounds(self@, x as int, y as int);
            }
            match self.cur_hue[x * h + y] {
                Some(u) => Some(Hue::from_units(u)),
                None => None,
            }
        } else {
            None
        }
    }

    /// Clamp and set the color variation applied to newborn hues.
    pub fn set_color_variation(&mut self, variation: u32)
        requires
            old(self).wf(),
        ensures
            final(self).wf(),
            final(self)@ == (GridView {
                color_variation: if variation > HUE_UNIT {
                    HUE_UNIT as int
                } else {
                    variation as int
                },
                ..old(self)@
            }),
            final(self).rng_state() == old(self).rng_state(),
    {
        self.color_variation = if variation > HUE_UNIT {
            HUE_UNIT
        } else {
            variation
        };
    }

    /// Set the color shown for live cells that carry no hue.
    pub fn set_alive_color(&mut self, color: Rgba)
        requires
            old(self).wf(),
        ensures
            final(self).wf(),
            final(self)@ == (GridView { alive_color: color, ..old(self)@ }),
            final(self).rng_state() == old(self).rng_state(),
    {
        self.alive_color = color;
    }

    /// Set the color shown for dead cells.
    pub fn set_dead_color(&mut self, color: Rgba)
        requires
            old(self).wf(),
        ensures
            final(self).wf(),
            final(self)@ == (GridView { dead_color: color, ..old(self)@ }),
            final(self).rng_state() == old(self).rng_state(),
    {
        self.dead_color = color;
    }

    /// The number of live cells, and the total number of cells.
    pub fn get_stats(&self) -> (r: (u32, u32))
        requires
            self.wf(),
        ensures
            r.0 == self@.alive_count(),
            r.1 == self@.width * self@.height,
    {
        let n: usize = self.cur_alive.len();
        let mut count: u32 = 0;
        let mut i: usize = 0;
        while i < n
            invariant
                i <= n,
                self.wf(),
                n == self@.alive.len(),
                n <= u32::MAX,
                count == count_live(self@.alive, i as int),
                count <= i,
            decreases n - i,
        {
            if self.cur_alive[i] {
                count = count + 1;
            }
            i += 1;
        }
        (count, self.width * self.height)
    }

    /// Count the live Moore neighbors of an in-bounds cell and collect,
    /// in scan order, the hues of those that carry one. Positions outside
    /// the grid contribute nothing; `laws::lemma_border_absorption` bounds
    /// the count for border cells.
    pub fn count_neighbors_and_colors(&self, x: usize, y: usize) -> (r: (u8, Vec<u32>))
        requires
            self.wf(),
            self@.in_bounds(x as int, y as int),
        ensures
            r.0 == self@.live_neighbors(x as int, y as int),
            r.1@ == self@.neighbor_hues(x as int, y as int),
            forall|i: int| 0 <= i < r.1@.len() ==> #[trigger] r.1@[i] < HUE_UNIT,
    {
        let mut count: u8 = 0;
        let mut hues: Vec<u32> = Vec::new();
        let mut k: usize = 0;
        while k < 8
            invariant
                k <= 8,
                self.wf(),
                self@.in_bounds(x as int, y as int),
                count == self@.live_neighbors_upto(x as int, y as int, k as int),
                count <= k,
                hues@ == self@.neighbor_hues_upto(x as int, y as int, k as int),
                forall|i: int| 0 <= i < hues@.len() ==> #[trigger] hues@[i] < HUE_UNIT,
            decreases 8 - k,
        {
            let (dx, dy): (i64, i64) = moore_offset(k);
            let nx: i64 = x as i64 + dx;
            let ny: i64 = y as i64 + dy;
            if 0 <= nx && nx < self.width as i64 && 0 <= ny && ny < self.height as i64 {
                proof {
                    lemma_idx_bounds(self@, nx as int, ny as int);
                }
                let i: usize = (nx as usize) * (self.height as usize) + (ny as usize);
                if self.cur_alive[i] {
                    count = count + 1;
                    if let Some(u) = self.cur_hue[i] {
                        proof {
                            assert(self@.hue[i as int] matches Some(v) ==> v < HUE_UNIT);
                        }
                        hues.push(u);
                    }
                }
            }
            k += 1;
        }
        (count, hues)
    }

    fn perturbed_units(m: u32, x: usize, y: usize, cv: u32) -> (r: u32)
        requires
            m < HUE_UNIT,
            cv <= HUE_UNIT,
            x < 0x1_0000_0000,
            y < 0x1_0000_0000,
        ensures
            r as int == (m + perturb_offset(cell_hash(x as int, y as int), cv as int)) % (
            HUE_UNIT as int),
            r < HUE_UNIT,
    {
        let key: u64 = (x as u64) * 0x1_0000_0000 + (y as u64);
        let h: u64 = mix64_exec(key);
        if cv == 0 {
            proof {
                lemma_div_multiples_vanish(0, 0x1_0000_0000_0000_0000);
                lemma_small_mod(m as nat, HUE_UNIT as nat);
            }
            return m;
        }
        proof {
            assert((h as int) * ((2 * cv) as int) < ((2 * cv) as int) * 0x1_0000_0000_0000_0000)
                by (nonlinear_arith)
                requires
                    0 <= h < 0x1_0000_0000_0000_0000,
                    0 < 2 * cv,
            ;
        }
        let num: u128 = (h as u128) * ((2 * cv) as u128);
        let q128: u128 = num / 0x1_0000_0000_0000_0000u128;
        proof {
            lemma_div_by_multiple_is_strongly_ordered(
                num as int,
                ((2 * cv) as int) * 0x1_0000_0000_0000_0000,
                (2 * cv) as int,
                0x1_0000_0000_0000_0000,
            );
            lemma_div_multiples_vanish((2 * cv) as int, 0x1_0000_0000_0000_0000);
            assert(0x1_0000_0000_0000_0000 * ((2 * cv) as int) == ((2 * cv) as int)
                * 0x1_0000_0000_0000_0000) by (nonlinear_arith);
        }
        let q: i64 = q128 as i64;
        let offset: i64 = q - cv as i64;
        let s: i64 = m as i64 + offset;
        let w: i64 = if s < 0 {
            s + HUE_UNIT as i64
        } else if s >= HUE_UNIT as i64 {
            s - HUE_UNIT as i64
        } else {
            s
        };
        proof {
            if s < 0 {
                lemma_fundamental_div_mod_converse_mod(
                    s as int,
                    HUE_UNIT as int,
                    -1,
                    s + HUE_UNIT as int,
                );
            } else if s >= HUE_UNIT as i64 {
                lemma_fundamental_div_mod_converse_mod(
                    s as int,
                    HUE_UNIT as int,
                    1,
                    s - HUE_UNIT as int,
                );
            } else {
                lemma_fundamental_div_mod_converse_mod(s as int, HUE_UNIT as int, 0, s as int);
            }
        }
        w as u32
    }

    fn fallback_hue_units(nonce: u64, x: usize, y: usize) -> (r: u32)
        requires
            x < 0x1_0000_0000,
            y < 0x1_0000_0000,
        ensures
            r == fallback_units(nonce, x as int, y as int),
            r < HUE_UNIT,
    {
        let key: u64 = (x as u64) * 0x1_0000_0000 + (y as u64);
        (mix64_exec(nonce ^ key) % HUE_UNIT as u64) as u32
    }

    /// Advance the whole grid by one generation: every cell's next
    /// aliveness follows Conway's rule over its Moore neighborhood, and
    /// its next hue is inherited, computed as a perturbed circular mean,
    /// or drawn fresh, exactly as `GridView::next_hue_at` states. The two
    /// layer buffers are then swapped, so the update is read consistently
    /// from the previous generation. The generator advances exactly once
    /// per step.
    pub fn update(&mut self)
        requires
            old(self).wf(),
        ensures
            final(self).wf(),
            final(self)@.width == old(self)@.width,
            final(self)@.height == old(self)@.height,
            final(self)@.color_variation == old(self)@.color_variation,
            final(self)@.alive_color == old(self)@.alive_color,
            final(self)@.dead_color == old(self)@.dead_color,
            final(self).rng_state() == rng_next_state(old(self).rng_state()),
            forall|x: int, y: int|
                old(self)@.in_bounds(x, y) ==> #[trigger] final(self)@.alive_at(x, y) == old(self)@.next_alive_at(x, y),
            forall|x: int, y: int|
                old(self)@.in_bounds(x, y) ==> #[trigger] final(self)@.hue_at(x, y) == old(self)@.next_hue_at(x, y, rng_output(old(self).rng_state())),
            forall|x: int, y: int|
                old(self)@.in_bounds(x, y) && !final(self)@.alive_at(x, y)
                    ==> #[trigger] final(self)@.hue_at(x, y) is None,
    {
        let ghost g0: GridView = old(self)@;
        let nonce: u64 = self.rng.next_u64();
        let w: usize = self.width as usize;
        let h: usize = self.height as usize;
        let mut x: usize = 0;
        while x < w
            invariant
                x <= w,
                self.wf(),
                g0 == old(self)@,
                self@ == g0,
                g0.wf(),
                w == g0.width,
                h == g0.height,
                self.rng@ == rng_next_state(old(self).rng_state()),
                nonce == rng_output(old(self).rng_state()),
                self.next_alive@.len() == g0.alive.len(),
                self.next_hue@.len() == g0.hue.len(),
                forall|a: int, b: int|
                    g0.in_bounds(a, b) && a < x ==> #[trigger] self.next_alive@[g0.idx(a, b)]
                        == g0.next_alive_at(a, b),
                forall|a: int, b: int|
                    g0.in_bounds(a, b) && a < x ==> #[trigger] self.next_hue@[g0.idx(a, b)]
                        == g0.next_hue_at(a, b, nonce),
            decreases w - x,
        {
            let mut y: usize = 0;
            while y < h
                invariant
                    x < w,
                    y <= h,
                    self.wf(),
                    g0 == old(self)@,
                    self@ == g0,
                    g0.wf(),
                    w == g0.width,
                    h == g0.height,
                    self.rng@ == rng_next_state(old(self).rng_state()),
                    nonce == rng_output(old(self).rng_state()),
                    self.next_alive@.len() == g0.alive.len(),
                    self.next_hue@.len() == g0.hue.len(),
                    forall|a: int, b: int|
                        g0.in_bounds(a, b) && (a < x || (a == x && b < y)) ==> #[trigger] self.next_alive@[g0.idx(a, b)] == g0.next_alive_at(a, b),
                    forall|a: int, b: int|
                        g0.in_bounds(a, b) && (a < x || (a == x && b < y)) ==> #[trigger] self.next_hue@[g0.idx(a, b)] == g0.next_hue_at(a, b, nonce),
                decreases h - y,
            {
                let (n, hues): (u8, Vec<u32>) = self.count_neighbors_and_colors(x, y);
                proof {
                    lemma_idx_bounds(g0, x as int, y as int);
                    lemma_hues_upto_len(g0, x as int, y as int, 8);
                }
                let i: usize = x * h + y;
                let is_alive: bool = self.cur_alive[i];
                let will_live: bool = if is_alive {
                    n == 2 || n == 3
                } else {
                    n == 3
                };
                let new_units: Option<u32> = if !will_live {
                    None
                } else if is_alive {
                    self.cur_hue[i]
                } else if hues.len() > 0 {
                    let m: u32 = mean_hue_units(&hues);
                    Some(GameOfLife::perturbed_units(m, x, y, self.color_variation))
                } else {
                    Some(GameOfLife::fallback_hue_units(nonce, x, y))
                };
                self.next_alive[i] = will_live;
                self.next_hue[i] = new_units;
                proof {
                    assert(self.next_alive@[g0.idx(x as int, y as int)] == g0.next_alive_at(
                        x as int,
                        y as int,
                    ));
                    assert(self.next_hue@[g0.idx(x as int, y as int)] == g0.next_hue_at(
                        x as int,
                        y as int,
                        nonce,
                    ));
                    assert forall|a: int, b: int|
                        g0.in_bounds(a, b) && (a < x || (a == x && b < y + 1)) implies #[trigger] self.next_alive@[g0.idx(a, b)] == g0.next_alive_at(a, b) by {
                        lemma_idx_bounds(g0, a, b);
                        if g0.idx(a, b) == i && !(a == x && b == y) {
                            lemma_idx_injective(g0, a, b, x as int, y as int);
                        }
                    }
                    assert forall|a: int, b: int|
                        g0.in_bounds(a, b) && (a < x || (a == x && b < y + 1)) implies #[trigger] self.next_hue@[g0.idx(a, b)] == g0.next_hue_at(a, b, nonce) by {
                        lemma_idx_bounds(g0, a, b);
                        if g0.idx(a, b) == i && !(a == x && b == y) {
                            lemma_idx_injective(g0, a, b, x as int, y as int);
                        }
                    }
                }
                y += 1;
            }
            x += 1;
        }
        core::mem::swap(&mut self.cur_alive, &mut self.next_alive);
        core::mem::swap(&mut self.cur_hue, &mut self.next_hue);
        proof {
            assert forall|a: int, b: int| g0.in_bounds(a, b) implies #[trigger] final(self)@.alive_at(a, b) == g0.next_alive_at(a, b) by {
                assert(self.cur_alive@[g0.idx(a, b)] == g0.next_alive_at(a, b));
            }
            assert forall|a: int, b: int| g0.in_bounds(a, b) implies #[trigger] final(self)@.hue_at(a, b) == g0.next_hue_at(a, b, nonce) by {
                assert(self.cur_hue@[g0.idx(a, b)] == g0.next_hue_at(a, b, nonce));
            }
            assert forall|a: int, b: int|
                g0.in_bounds(a, b) && !final(self)@.alive_at(a, b) implies #[trigger] final(self)@.hue_at(a, b) is None by {
                lemma_step_hue_coherent(g0, a, b, nonce);
            }
            assert forall|i: int| 0 <= i < self.cur_hue@.len() implies (#[trigger] self.cur_hue@[i]
                matches Some(u) ==> u < HUE_UNIT) by {
                lemma_idx_decompose(g0, i);
                lemma_next_hue_in_range(g0, i / g0.height, i % g0.height, nonce);
            }
        }
    }

    /// Draw the whole grid onto the surface: each cell paints a
    /// `scale` x `scale` block of its display color with its top-left
    /// pixel at `(offset_x + x * scale, offset_y + y * scale)`. Every
    /// pixel outside the drawn rectangle keeps its color; blocks that
    /// hang over the surface's edge are clipped. A scale of zero draws
    /// nothing.
    pub fn render(&self, surface: &mut Surface, offset_x: u32, offset_y: u32, scale: u32)
        requires
            self.wf(),
            old(surface)@.wf(),
        ensures
            final(surface)@.wf(),
            final(surface)@.width == old(surface)@.width,
            final(surface)@.height == old(surface)@.height,
            forall|px: int, py: int|
                old(surface)@.in_bounds(px, py) ==> #[trigger] final(surface)@.pixel_at(px, py)
                    == (if self@.covers(offset_x as int, offset_y as int, scale as int, px, py) {
                    self@.display_color(
                        (px - offset_x) / (scale as int),
                        (py - offset_y) / (scale as int),
                    )
                } else {
                    old(surface)@.pixel_at(px, py)
                }),
    {
        let ghost s0 = old(surface)@;
        let ghost g = self@;
        let ghost ox = offset_x as int;
        let ghost oy = offset_y as int;
        if scale == 0 {
            proof {
                assert(g.width * 0 == 0) by (nonlinear_arith);
            }
            return ;
        }
        let w: u32 = self.width;
        let h: u32 = self.height;
        let mut x: u32 = 0;
        while x < w
            invariant
                x <= w,
                1 <= scale,
                self.wf(),
                g == self@,
                s0 == old(surface)@,
                ox == offset_x as int,
                oy == offset_y as int,
                w == g.width,
                h == g.height,
                surface@.wf(),
                surface@.width == s0.width,
                surface@.height == s0.height,
                forall|px: int, py: int|
                    s0.in_bounds(px, py) ==> #[trigger] surface@.pixel_at(px, py) == (if g.covers(
                        ox,
                        oy,
                        scale as int,
                        px,
                        py,
                    ) && (px - ox) / (scale as int) < x {
                        g.display_color((px - ox) / (scale as int), (py - oy) / (scale as int))
                    } else {
                        s0.pixel_at(px, py)
                    }),
            decreases w - x,
        {
            let mut y: u32 = 0;
            while y < h
                invariant
                    x < w,
                    y <= h,
                    1 <= scale,
                    self.wf(),
                    g == self@,
                    s0 == old(surface)@,
                    ox == offset_x as int,
                    oy == offset_y as int,
                    w == g.width,
                    h == g.height,
                    surface@.wf(),
                    surface@.width == s0.width,
                    surface@.height == s0.height,
                    forall|px: int, py: int|
                        s0.in_bounds(px, py) ==> #[trigger] surface@.pixel_at(px, py) == (
                        if g.covers(ox, oy, scale as int, px, py) && ((px - ox) / (scale as int) < x
                            || ((px - ox) / (scale as int) == x && (py - oy) / (scale as int)
                            < y)) {
                            g.display_color((px - ox) / (scale as int), (py - oy) / (scale as int))
                        } else {
                            s0.pixel_at(px, py)
                        }),
                decreases h - y,
            {
                proof {
                    lemma_idx_bounds(g, x as int, y as int);
                }
                let i: usize = (x as usize) * (h as usize) + (y as usize);
                let color: Rgba = if self.cur_alive[i] {
                    match self.cur_hue[i] {
                        Some(u) => Hue::from_units(u).to_color(),
                        None => self.alive_color,
                    }
                } else {
                    self.dead_color
                };
                proof {
                    assert(color == g.display_color(x as int, y as int));
                }
                fill_block(surface, offset_x, offset_y, scale, x, y, color);
                proof {
                    assert forall|px: int, py: int| s0.in_bounds(px, py) implies #[trigger] surface@.pixel_at(
                        px,
                        py,
                    ) == (if g.covers(ox, oy, scale as int, px, py) && ((px - ox) / (scale as int)
                        < x || ((px - ox) / (scale as int) == x && (py - oy) / (scale as int) < y
                        + 1)) {
                        g.display_color((px - ox) / (scale as int), (py - oy) / (scale as int))
                    } else {
                        s0.pixel_at(px, py)
                    }) by {
                        lemma_block_maps(ox, scale as int, g.width, x as int, px);
                        lemma_block_maps(oy, scale as int, g.height, y as int, py);
                    }
                }
                y += 1;
            }
            proof {
                assert forall|px: int, py: int|
                    s0.in_bounds(px, py) && g.covers(ox, oy, scale as int, px, py) implies (py - oy)
                    / (scale as int) < g.height && (((px - ox) / (scale as int) < x || (px - ox) / (
                scale as int) == x) <==> (px - ox) / (scale as int) < x + 1) by {
                    lemma_multiply_divide_lt(py - oy, scale as int, g.height);
                    assert((scale as int) * g.height == g.height * (scale as int))
                        by (nonlinear_arith);
                }
            }
            x += 1;
        }
        proof {
            assert forall|px: int, py: int|
                s0.in_bounds(px, py) && g.covers(ox, oy, scale as int, px, py) implies (px - ox) / (
            scale as int) < g.width by {
                lemma_multiply_divide_lt(px - ox, scale as int, g.width);
                assert((scale as int) * g.width == g.width * (scale as int)) by (nonlinear_arith);
            }
        }
    }
}

} // verus!
