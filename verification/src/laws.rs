use vstd::prelude::*;

use vstd::arithmetic::div_mod::{
    lemma_fundamental_div_mod, lemma_fundamental_div_mod_converse_div, lemma_mod_bound,
};

use crate::hue::HUE_UNIT;
use crate::view::{count_live, moore_dx, moore_dy, GridView};

verus! {

/// The layer index of an in-bounds cell lies inside the layers.
pub proof fn lemma_idx_bounds(g: GridView, x: int, y: int)
    requires
        g.in_bounds(x, y),
    ensures
        0 <= g.idx(x, y) < g.width * g.height,
{
    assert(0 <= x * g.height + y < g.width * g.height) by (nonlinear_arith)
        requires
            0 <= x < g.width,
            0 <= y < g.height,
    ;
}

/// Distinct in-bounds cells have distinct layer indices.
pub proof fn lemma_idx_injective(g: GridView, x1: int, y1: int, x2: int, y2: int)
    requires
        g.in_bounds(x1, y1),
        g.in_bounds(x2, y2),
        g.idx(x1, y1) == g.idx(x2, y2),
    ensures
        x1 == x2 && y1 == y2,
{
    assert(x1 == x2 && y1 == y2) by (nonlinear_arith)
        requires
            0 <= x1 < g.width,
            0 <= y1 < g.height,
            0 <= x2 < g.width,
            0 <= y2 < g.height,
            x1 * g.height + y1 == x2 * g.height + y2,
    ;
}

/// Every layer index belongs to exactly one in-bounds cell.
pub proof fn lemma_idx_decompose(g: GridView, i: int)
    requires
        1 <= g.height,
        0 <= i < g.width * g.height,
    ensures
        g.in_bounds(i / g.height, i % g.height),
        g.idx(i / g.height, i % g.height) == i,
{
    lemma_fundamental_div_mod(i, g.height);
    lemma_mod_bound(i, g.height);
    assert(0 <= i / g.height < g.width) by (nonlinear_arith)
        requires
            1 <= g.height,
            0 <= i < g.width * g.height,
            i == g.height * (i / g.height) + i % g.height,
            0 <= i % g.height < g.height,
    ;
    assert((i / g.height) * g.height + i % g.height == i) by (nonlinear_arith)
        requires
            i == g.height * (i / g.height) + i % g.height,
    ;
}

/// The `scale`-wide block of the cell at index `c` in a row of `n` cells
/// starting at offset `o` consists of exactly those covered positions
/// whose quotient is `c`.
pub proof fn lemma_block_maps(o: int, scale: int, n: int, c: int, p: int)
    requires
        1 <= scale,
        0 <= c < n,
    ensures
        (o + c * scale <= p < o + c * scale + scale) <==> (o <= p < o + n * scale && (p - o) / scale
            == c),
{
    if o + c * scale <= p < o + c * scale + scale {
        lemma_fundamental_div_mod_converse_div(p - o, scale, c, p - o - c * scale);
        assert(0 <= c * scale) by (nonlinear_arith)
            requires
                0 <= c,
                0 <= scale,
        ;
        assert(c * scale + scale <= n * scale) by (nonlinear_arith)
            requires
                c + 1 <= n,
                0 <= scale,
        ;
    }
    if o <= p < o + n * scale && (p - o) / scale == c {
        lemma_fundamental_div_mod(p - o, scale);
        lemma_mod_bound(p - o, scale);
        assert(scale * c == c * scale) by (nonlinear_arith);
    }
}

/// No entries are counted among an all-clear prefix.
pub proof fn lemma_count_live_zero(s: Seq<bool>, k: int)
    requires
        forall|i: int| 0 <= i < k ==> !(#[trigger] s[i]),
    ensures
        count_live(s, k) == 0,
    decreases k,
{
    if k > 0 {
        lemma_count_live_zero(s, k - 1);
    }
}

/// At most `k` entries are counted among the first `k`.
pub proof fn lemma_count_live_bound(s: Seq<bool>, k: int)
    requires
        0 <= k,
    ensures
        count_live(s, k) <= k,
    decreases k,
{
    if k > 0 {
        lemma_count_live_bound(s, k - 1);
    }
}

/// The live-cell count never exceeds the number of cells, so the pair
/// that `get_stats` returns is always ordered.
pub proof fn lemma_alive_count_bound(g: GridView)
    requires
        g.wf(),
    ensures
        g.alive_count() <= g.width * g.height,
{
    lemma_count_live_bound(g.alive, g.alive.len() as int);
}

/// At most `k` hues are collected among the first `k` scan positions.
pub proof fn lemma_hues_upto_len(g: GridView, x: int, y: int, k: int)
    requires
        0 <= k,
    ensures
        g.neighbor_hues_upto(x, y, k).len() <= k,
    decreases k,
{
    if k > 0 {
        lemma_hues_upto_len(g, x, y, k - 1);
    }
}

/// As many hues as live neighbors are collected among the first `k` scan
/// positions when every live cell carries a hue.
pub proof fn lemma_colored_hues_count(g: GridView, x: int, y: int, k: int)
    requires
        g.fully_colored(),
        0 <= k,
    ensures
        g.neighbor_hues_upto(x, y, k).len() == g.live_neighbors_upto(x, y, k),
    decreases k,
{
    if k > 0 {
        lemma_colored_hues_count(g, x, y, k - 1);
    }
}

/// A step writes only normalized hues.
pub proof fn lemma_next_hue_in_range(g: GridView, x: int, y: int, nonce: u64)
    requires
        g.wf(),
        g.in_bounds(x, y),
    ensures
        g.next_hue_at(x, y, nonce) matches Some(u) ==> u < HUE_UNIT,
{
    lemma_idx_bounds(g, x, y);
    lemma_mod_bound(
        crate::trig::mean_units(g.neighbor_hues(x, y)) + crate::view::perturb_offset(
            crate::view::cell_hash(x, y),
            g.color_variation,
        ),
        HUE_UNIT as int,
    );
}

/// Aliveness and hue stay coherent across a step: a cell that is dead
/// after the step carries no hue.
pub proof fn lemma_step_hue_coherent(g: GridView, x: int, y: int, nonce: u64)
    requires
        !g.next_alive_at(x, y),
    ensures
        g.next_hue_at(x, y, nonce) is None,
{
}

/// Two grids that agree on dimensions and on both layers scan every
/// neighborhood identically.
proof fn lemma_scan_agrees(g1: GridView, g2: GridView, x: int, y: int, k: int)
    requires
        g1.width == g2.width,
        g1.height == g2.height,
        forall|a: int, b: int|
            g1.in_bounds(a, b) ==> #[trigger] g1.alive_at(a, b) == g2.alive_at(a, b),
        forall|a: int, b: int| g1.in_bounds(a, b) ==> #[trigger] g1.hue_at(a, b) == g2.hue_at(a, b),
        0 <= k,
    ensures
        g1.live_neighbors_upto(x, y, k) == g2.live_neighbors_upto(x, y, k),
        g1.neighbor_hues_upto(x, y, k) == g2.neighbor_hues_upto(x, y, k),
    decreases k,
{
    if k > 0 {
        lemma_scan_agrees(g1, g2, x, y, k - 1);
    }
}

/// Determinism of the step: two grids that agree on dimensions, aliveness,
/// hues and color variation step identically, whatever the states of their
/// generators, provided every live cell carries a hue — then no fresh hue
/// is ever drawn, because a birth needs three live neighbors and all three
/// contribute a hue to the mean. Full coloring itself is preserved: every
/// cell alive after the step carries a hue. This covers grids seeded
/// entirely with explicit hues, with or without color variation.
pub proof fn lemma_step_deterministic(
    g1: GridView,
    g2: GridView,
    nonce1: u64,
    nonce2: u64,
    x: int,
    y: int,
)
    requires
        g1.width == g2.width,
        g1.height == g2.height,
        g1.color_variation == g2.color_variation,
        forall|a: int, b: int|
            g1.in_bounds(a, b) ==> #[trigger] g1.alive_at(a, b) == g2.alive_at(a, b),
        forall|a: int, b: int| g1.in_bounds(a, b) ==> #[trigger] g1.hue_at(a, b) == g2.hue_at(a, b),
        g1.fully_colored(),
        g1.in_bounds(x, y),
    ensures
        g1.next_alive_at(x, y) == g2.next_alive_at(x, y),
        g1.next_hue_at(x, y, nonce1) == g2.next_hue_at(x, y, nonce2),
        g1.next_alive_at(x, y) ==> g1.next_hue_at(x, y, nonce1) is Some,
{
    lemma_scan_agrees(g1, g2, x, y, 8);
    lemma_colored_hues_count(g1, x, y, 8);
}

/// Border absorption: positions outside the grid contribute nothing to a
/// neighborhood — every counted neighbor lies in bounds — so a cell on the
/// border sees at most five live neighbors, and a corner cell at most
/// three.
pub proof fn lemma_border_absorption(g: GridView, x: int, y: int)
    requires
        g.in_bounds(x, y),
    ensures
        forall|k: int|
            0 <= k < 8 && #[trigger] g.neighbor_live(x, y, k) ==> g.in_bounds(
                x + moore_dx(k),
                y + moore_dy(k),
            ),
        x == 0 || x == g.width - 1 || y == 0 || y == g.height - 1 ==> g.live_neighbors(x, y) <= 5,
        (x == 0 || x == g.width - 1) && (y == 0 || y == g.height - 1) ==> g.live_neighbors(x, y)
            <= 3,
{
    let c = |k: int| -> int
        {
            if g.neighbor_live(x, y, k) {
                1
            } else {
                0
            }
        };
    assert(g.live_neighbors_upto(x, y, 0) == 0);
    assert(g.live_neighbors_upto(x, y, 1) == c(0));
    assert(g.live_neighbors_upto(x, y, 2) == c(0) + c(1));
    assert(g.live_neighbors_upto(x, y, 3) == c(0) + c(1) + c(2));
    assert(g.live_neighbors_upto(x, y, 4) == c(0) + c(1) + c(2) + c(3));
    assert(g.live_neighbors_upto(x, y, 5) == c(0) + c(1) + c(2) + c(3) + c(4));
    assert(g.live_neighbors_upto(x, y, 6) == c(0) + c(1) + c(2) + c(3) + c(4) + c(5));
    assert(g.live_neighbors_upto(x, y, 7) == c(0) + c(1) + c(2) + c(3) + c(4) + c(5) + c(6));
    assert(g.live_neighbors(x, y) == c(0) + c(1) + c(2) + c(3) + c(4) + c(5) + c(6) + c(7));
    if x == 0 {
        assert(!g.neighbor_live(x, y, 0));
        assert(!g.neighbor_live(x, y, 1));
        assert(!g.neighbor_live(x, y, 2));
    }
    if x == g.width - 1 {
        assert(!g.neighbor_live(x, y, 5));
        assert(!g.neighbor_live(x, y, 6));
        assert(!g.neighbor_live(x, y, 7));
    }
    if y == 0 {
        assert(!g.neighbor_live(x, y, 0));
        assert(!g.neighbor_live(x, y, 3));
        assert(!g.neighbor_live(x, y, 5));
    }
    if y == g.height - 1 {
        assert(!g.neighbor_live(x, y, 2));
        assert(!g.neighbor_live(x, y, 4));
        assert(!g.neighbor_live(x, y, 7));
    }
}

} // verus!
