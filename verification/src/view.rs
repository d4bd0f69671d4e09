use vstd::prelude::*;

use crate::hue::{hue_color, Rgba, HUE_UNIT};
use crate::rng::mix64;
use crate::trig::mean_units;

verus! {

/// Column offset of the `k`-th Moore neighbor, `k` in `[0, 8)`, in scan
/// order: the column offset varies in the outer position, the row offset
/// in the inner one, and the cell itself is skipped.
pub open spec fn moore_dx(k: int) -> int {
    if k < 3 {
        -1
    } else if k < 5 {
        0
    } else {
        1
    }
}

/// Row offset of the `k`-th Moore neighbor; see `moore_dx`.
pub open spec fn moore_dy(k: int) -> int {
    if k == 0 || k == 3 || k == 5 {
        -1
    } else if k == 1 || k == 6 {
        0
    } else {
        1
    }
}

/// Conway's rule: a live cell survives with two or three live neighbors,
/// a dead cell is born with exactly three.
pub open spec fn conway_next(alive: bool, n: nat) -> bool {
    if alive {
        n == 2 || n == 3
    } else {
        n == 3
    }
}

/// A 64-bit key naming the cell `(x, y)`: the column in the high word,
/// the row in the low word.
pub open spec fn cell_key(x: int, y: int) -> u64 {
    (x * 0x1_0000_0000 + y) as u64
}

/// The build-fixed perturbation hash of a cell: a pure function of the
/// coordinates, so the perturbation of a given cell is stable.
pub open spec fn cell_hash(x: int, y: int) -> u64 {
    mix64(cell_key(x, y))
}

/// The perturbation of a newborn hue: the hash maps to
/// `(h / 2^64) * 2 - 1` in `[-1, 1)`, scaled by the grid's color
/// variation, all in hue units.
pub open spec fn perturb_offset(h: u64, cv: int) -> int {
    (h * (2 * cv)) / 0x1_0000_0000_0000_0000 - cv
}

/// The hue given to a cell born with live but colorless neighbors: a
/// fresh hue folded from the step nonce and the cell key.
pub open spec fn fallback_units(nonce: u64, x: int, y: int) -> u32 {
    (mix64(nonce ^ cell_key(x, y)) % (HUE_UNIT as u64)) as u32
}

/// Number of set entries among the first `k` of `s`.
pub open spec fn count_live(s: Seq<bool>, k: int) -> nat
    decreases k,
{
    if k <= 0 {
        0
    } else {
        count_live(s, k - 1) + (if s[k - 1] {
            1nat
        } else {
            0nat
        })
    }
}

/// The mathematical content of a grid: the dimensions, the aliveness
/// layer and the hue layer (both stored column-major: cell `(x, y)` lives
/// at index `x * height + y`), the display colors and the color
/// variation. The scratch buffers of the double-buffered grid are not
/// part of the view.
pub struct GridView {
    pub width: int,
    pub height: int,
    pub alive: Seq<bool>,
    pub hue: Seq<Option<u32>>,
    pub color_variation: int,
    pub alive_color: Rgba,
    pub dead_color: Rgba,
}

impl GridView {
    /// Well-formedness: at least one column and row, layers of the right
    /// length, a normalized color variation, and normalized stored hues.
    pub open spec fn wf(self) -> bool {
        &&& 1 <= self.width
        &&& 1 <= self.height
        &&& self.width * self.height <= u32::MAX
        &&& self.alive.len() == self.width * self.height
        &&& self.hue.len() == self.width * self.height
        &&& 0 <= self.color_variation <= HUE_UNIT
        &&& forall|i: int|
            0 <= i < self.hue.len() ==> (#[trigger] self.hue[i] matches Some(u) ==> u < HUE_UNIT)
    }

    pub open spec fn in_bounds(self, x: int, y: int) -> bool {
        0 <= x < self.width && 0 <= y < self.height
    }

    /// The layer index of cell `(x, y)`.
    pub open spec fn idx(self, x: int, y: int) -> int {
        x * self.height + y
    }

    pub open spec fn alive_at(self, x: int, y: int) -> bool {
        self.alive[self.idx(x, y)]
    }

    pub open spec fn hue_at(self, x: int, y: int) -> Option<u32> {
        self.hue[self.idx(x, y)]
    }

    /// Whether the `k`-th Moore neighbor of `(x, y)` lies in the grid and
    /// is alive. Positions outside the grid contribute nothing.
    pub open spec fn neighbor_live(self, x: int, y: int, k: int) -> bool {
        self.in_bounds(x + moore_dx(k), y + moore_dy(k)) && self.alive_at(
            x + moore_dx(k),
            y + moore_dy(k),
        )
    }

    /// The hue the `k`-th neighbor contributes: present only if that
    /// neighbor is alive and itself carries a hue.
    pub open spec fn neighbor_hue(self, x: int, y: int, k: int) -> Option<u32> {
        if self.neighbor_live(x, y, k) {
            self.hue_at(x + moore_dx(k), y + moore_dy(k))
        } else {
            None
        }
    }

    /// Number of live neighbors among the first `k` scan positions.
    pub open spec fn live_neighbors_upto(self, x: int, y: int, k: int) -> nat
        decreases k,
    {
        if k <= 0 {
            0
        } else {
            self.live_neighbors_upto(x, y, k - 1) + (if self.neighbor_live(x, y, k - 1) {
                1nat
            } else {
                0nat
            })
        }
    }

    /// Number of live Moore neighbors of `(x, y)`.
    pub open spec fn live_neighbors(self, x: int, y: int) -> nat {
        self.live_neighbors_upto(x, y, 8)
    }

    /// The hues collected from the first `k` scan positions, in scan
    /// order. Live neighbors without a hue are counted but not collected.
    pub open spec fn neighbor_hues_upto(self, x: int, y: int, k: int) -> Seq<u32>
        decreases k,
    {
        if k <= 0 {
            Seq::empty()
        } else {
            let prefix = self.neighbor_hues_upto(x, y, k - 1);
            match self.neighbor_hue(x, y, k - 1) {
                Some(u) => prefix.push(u),
                None => prefix,
            }
        }
    }

    /// The hues of the live, colored Moore neighbors of `(x, y)`.
    pub open spec fn neighbor_hues(self, x: int, y: int) -> Seq<u32> {
        self.neighbor_hues_upto(x, y, 8)
    }

    /// The aliveness of `(x, y)` after one step.
    pub open spec fn next_alive_at(self, x: int, y: int) -> bool {
        conway_next(self.alive_at(x, y), self.live_neighbors(x, y))
    }

    /// The hue of a cell born at `(x, y)` from colored neighbors: the
    /// circular mean of their hues, shifted by the deterministic
    /// perturbation and wrapped onto the wheel.
    pub open spec fn born_units(self, x: int, y: int) -> int {
        (mean_units(self.neighbor_hues(x, y)) + perturb_offset(
            cell_hash(x, y),
            self.color_variation,
        )) % (HUE_UNIT as int)
    }

    /// The hue layer entry of `(x, y)` after one step: dead cells lose
    /// their hue, survivors carry theirs unchanged (present or absent),
    /// and newborn cells inherit the perturbed circular mean of their
    /// neighbors' hues, or a fresh hue when no neighbor carries one.
    pub open spec fn next_hue_at(self, x: int, y: int, nonce: u64) -> Option<u32> {
        if !self.next_alive_at(x, y) {
            None
        } else if self.alive_at(x, y) {
            self.hue_at(x, y)
        } else if self.neighbor_hues(x, y).len() > 0 {
            Some(self.born_units(x, y) as u32)
        } else {
            Some(fallback_units(nonce, x, y))
        }
    }

    /// Whether every live cell carries a hue. A grid seeded entirely with
    /// explicit hues has this property, and a step preserves it.
    pub open spec fn fully_colored(self) -> bool {
        forall|x: int, y: int|
            self.in_bounds(x, y) && #[trigger] self.alive_at(x, y) ==> self.hue_at(x, y) is Some
    }

    /// The color cell `(x, y)` displays: its hue on the color wheel when
    /// present, the plain alive color for a colorless live cell, and the
    /// dead color otherwise.
    pub open spec fn display_color(self, x: int, y: int) -> Rgba {
        if self.alive_at(x, y) {
            match self.hue_at(x, y) {
                Some(u) => hue_color(u as int),
                None => self.alive_color,
            }
        } else {
            self.dead_color
        }
    }

    /// Whether surface pixel `(px, py)` lies inside the rectangle the
    /// grid paints when rendered at offset `(ox, oy)` with the given
    /// scale.
    pub open spec fn covers(self, ox: int, oy: int, scale: int, px: int, py: int) -> bool {
        ox <= px < ox + self.width * scale && oy <= py < oy + self.height * scale
    }

    /// Number of live cells in the grid.
    pub open spec fn alive_count(self) -> nat {
        count_live(self.alive, self.alive.len() as int)
    }
}

} // verus!
