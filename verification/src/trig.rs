use vstd::prelude::*;

use vstd::arithmetic::div_mod::{lemma_div_is_ordered, lemma_div_multiples_vanish};

use crate::hue::{Hue, HUE_UNIT};

verus! {

/// Half a turn, in hue units.
pub const HALF_TURN: u32 = 500_000;

/// A quarter turn, in hue units.
pub const QUARTER_TURN: u32 = 250_000;

/// An eighth of a turn, in hue units.
pub const EIGHTH_TURN: u32 = 125_000;

/// The fixed-point unit for sine and cosine values and for ratios:
/// the stored value `r` stands for the real number `r / SIN_ONE`.
pub const SIN_ONE: u32 = 1_000_000;

/// Coefficients of the odd series of `sin((pi/2) z)` for `z` in `[0, 1]`,
/// scaled by 1e9: pi/2, (pi/2)^3/3!, (pi/2)^5/5!, (pi/2)^7/7!, and a
/// ninth-order term adjusted so the alternating sum is exactly 1e9 —
/// which makes the fixed-point sine exactly one at a quarter turn.
pub const SIN_C1: u64 = 1_570_796_327;

/// See `SIN_C1`.
pub const SIN_C3: u64 = 645_964_098;

/// See `SIN_C1`.
pub const SIN_C5: u64 = 79_692_626;

/// See `SIN_C1`.
pub const SIN_C7: u64 = 4_681_754;

/// See `SIN_C1`: `1e9 - (SIN_C1 - SIN_C3 + SIN_C5 - SIN_C7)`.
pub const SIN_C9: u64 = 156_899;

/// Coefficients of the odd arctangent series `z - z^3/3 + z^5/5 - ...`,
/// in hue units per unit ratio (one radian is `1e6 / (2 pi)` hue units),
/// scaled by a further 1e4: `1e10 / (2 pi n)` for n = 1, 3, 5, 7, 9.
pub const ATAN_C1: u64 = 1_591_549_431;

/// See `ATAN_C1`.
pub const ATAN_C3: u64 = 530_516_477;

/// See `ATAN_C1`.
pub const ATAN_C5: u64 = 318_309_886;

/// See `ATAN_C1`.
pub const ATAN_C7: u64 = 227_364_204;

/// See `ATAN_C1`.
pub const ATAN_C9: u64 = 176_838_826;

/// The largest ratio the arctangent series takes directly: the tangent
/// of a sixteenth of a turn, scaled by `SIN_ONE`. Larger ratios fold
/// through the half-angle identity.
pub const ATAN_FOLD: u32 = 414_213;

/// Fixed-point sine over the first quarter turn, `u` in
/// `[0, QUARTER_TURN]`, scaled by `SIN_ONE`: the odd series of
/// `sin((pi/2) z)` for `z = u / QUARTER_TURN`, evaluated by Horner's rule
/// in integer arithmetic and clamped to one. Exactly 0 at 0 and exactly
/// `SIN_ONE` at the quarter turn; accurate to a few millionths between.
pub open spec fn sin_quarter(u: int) -> int {
    let m = 4 * u;
    let w = (m * m) / (SIN_ONE as int);
    let b4 = SIN_C7 - (SIN_C9 * w) / (SIN_ONE as int);
    let b3 = SIN_C5 - (b4 * w) / (SIN_ONE as int);
    let b2 = SIN_C3 - (b3 * w) / (SIN_ONE as int);
    let b1 = SIN_C1 - (b2 * w) / (SIN_ONE as int);
    let r = (m * b1) / 1_000_000_000;
    if r > SIN_ONE {
        SIN_ONE as int
    } else {
        r
    }
}

/// Fixed-point sine of `t` hue units, `t` in `[0, HUE_UNIT)`, scaled by
/// `SIN_ONE`: the quarter wave folded with exact symmetry, so that
/// `sin_units(HUE_UNIT - t) == -sin_units(t)` holds exactly.
pub open spec fn sin_units(t: int) -> int {
    if t < QUARTER_TURN {
        sin_quarter(t)
    } else if t < HALF_TURN {
        sin_quarter(HALF_TURN - t)
    } else if t < 750_000 {
        -sin_quarter(t - HALF_TURN)
    } else {
        -sin_quarter(HUE_UNIT - t)
    }
}

/// Fixed-point cosine of `t` hue units: the sine a quarter turn ahead.
pub open spec fn cos_units(t: int) -> int {
    if t < 750_000 {
        sin_units(t + QUARTER_TURN)
    } else {
        sin_units(t - 750_000)
    }
}

/// Fixed-point arctangent of the small ratio `v / SIN_ONE`, `v` in
/// `[0, ATAN_FOLD + 1]`, in hue units: the odd arctangent series by
/// Horner's rule.
pub open spec fn atan_small(v: int) -> int {
    let w = (v * v) / (SIN_ONE as int);
    let a4 = ATAN_C7 - (ATAN_C9 * w) / (SIN_ONE as int);
    let a3 = ATAN_C5 - (a4 * w) / (SIN_ONE as int);
    let a2 = ATAN_C3 - (a3 * w) / (SIN_ONE as int);
    let a1 = ATAN_C1 - (a2 * w) / (SIN_ONE as int);
    (v * a1) / 10_000_000_000
}

/// Fixed-point arctangent of the ratio `r / SIN_ONE` for `r` in
/// `[0, SIN_ONE]`, in hue units in `[0, EIGHTH_TURN]`: ratios above the
/// tangent of a sixteenth of a turn fold through the identity
/// `atan(z) = pi/4 - atan((1 - z) / (1 + z))`. Exact at ratio 0 and at
/// ratio one; accurate to about a millionth of a turn between.
pub open spec fn atan_units(r: int) -> int {
    if r <= ATAN_FOLD {
        atan_small(r)
    } else {
        EIGHTH_TURN - atan_small(((SIN_ONE - r) * (SIN_ONE as int)) / (SIN_ONE + r))
    }
}

/// Fixed-point two-argument arctangent: the angle of the vector `(x, y)`,
/// in hue units in `[0, HUE_UNIT)`. The origin maps to angle zero.
pub open spec fn atan2_units(y: int, x: int) -> int {
    let ax = if x >= 0 {
        x
    } else {
        -x
    };
    let ay = if y >= 0 {
        y
    } else {
        -y
    };
    if ax == 0 && ay == 0 {
        0
    } else {
        let q = if ay <= ax {
            atan_units((ay * (SIN_ONE as int)) / ax)
        } else {
            QUARTER_TURN - atan_units((ax * (SIN_ONE as int)) / ay)
        };
        let a = if x >= 0 && y >= 0 {
            q
        } else if x < 0 && y >= 0 {
            HALF_TURN - q
        } else if x < 0 {
            HALF_TURN + q
        } else {
            (HUE_UNIT as int) - q
        };
        a % (HUE_UNIT as int)
    }
}

/// Sum of the fixed-point sines of the first `k` hues of `s`.
pub open spec fn sum_sin_upto(s: Seq<u32>, k: int) -> int
    decreases k,
{
    if k <= 0 {
        0
    } else {
        sum_sin_upto(s, k - 1) + sin_units(s[k - 1] as int)
    }
}

/// Sum of the fixed-point sines of a list of hues.
pub open spec fn sum_sin(s: Seq<u32>) -> int {
    sum_sin_upto(s, s.len() as int)
}

/// Sum of the fixed-point cosines of the first `k` hues of `s`.
pub open spec fn sum_cos_upto(s: Seq<u32>, k: int) -> int
    decreases k,
{
    if k <= 0 {
        0
    } else {
        sum_cos_upto(s, k - 1) + cos_units(s[k - 1] as int)
    }
}

/// Sum of the fixed-point cosines of a list of hues.
pub open spec fn sum_cos(s: Seq<u32>) -> int {
    sum_cos_upto(s, s.len() as int)
}

/// Whether every hue of the list equals the first.
pub open spec fn all_same(s: Seq<u32>) -> bool {
    forall|i: int| 0 <= i < s.len() ==> #[trigger] s[i] == s[0]
}

/// The circular mean of a list of hues: each hue is a point on the unit
/// circle, the points are summed, and the mean is the angle of the sum.
/// A list of identical hues is exactly its own mean; the empty list
/// (never produced by a birth) maps to hue zero. The fixed-point
/// evaluation stays within a few millionths of a turn of the exact
/// circular mean whenever the summed vectors do not nearly cancel.
pub open spec fn mean_units(s: Seq<u32>) -> int {
    if s.len() > 0 && all_same(s) {
        s[0] as int
    } else {
        atan2_units(sum_sin(s), sum_cos(s))
    }
}

/// Products of bounded non-negative factors are bounded.
proof fn lemma_mul_bound(a: int, b: int, am: int, bm: int)
    by (nonlinear_arith)
    requires
        0 <= a <= am,
        0 <= b <= bm,
    ensures
        0 <= a * b <= am * bm,
{
}

/// Scaling down a product by one factor's bound keeps it under the other
/// factor: `(a * b) / c <= a` when `b <= c`.
proof fn lemma_mul_div_le(a: int, b: int, c: int)
    requires
        0 <= a,
        0 <= b <= c,
        0 < c,
    ensures
        0 <= (a * b) / c <= a,
{
    lemma_mul_bound(a, b, a, c);
    lemma_div_is_ordered(0, a * b, c);
    lemma_div_is_ordered(a * b, a * c, c);
    lemma_div_multiples_vanish(a, c);
    assert(c * a == a * c) by (nonlinear_arith);
}

fn sin_quarter_exec(u: u32) -> (r: u64)
    requires
        u <= QUARTER_TURN,
    ensures
        r == sin_quarter(u as int),
        r <= SIN_ONE,
{
    let m: u64 = 4 * (u as u64);
    proof {
        lemma_mul_bound(m as int, m as int, SIN_ONE as int, SIN_ONE as int);
        lemma_mul_div_le(m as int, m as int, SIN_ONE as int);
    }
    let w: u64 = m * m / (SIN_ONE as u64);
    proof {
        lemma_mul_div_le(SIN_C9 as int, w as int, SIN_ONE as int);
    }
    let b: u64 = SIN_C7 - SIN_C9 * w / (SIN_ONE as u64);
    proof {
        lemma_mul_bound(b as int, w as int, SIN_C7 as int, SIN_ONE as int);
        lemma_mul_div_le(b as int, w as int, SIN_ONE as int);
    }
    let b: u64 = SIN_C5 - b * w / (SIN_ONE as u64);
    proof {
        lemma_mul_bound(b as int, w as int, SIN_C5 as int, SIN_ONE as int);
        lemma_mul_div_le(b as int, w as int, SIN_ONE as int);
    }
    let b: u64 = SIN_C3 - b * w / (SIN_ONE as u64);
    proof {
        lemma_mul_bound(b as int, w as int, SIN_C3 as int, SIN_ONE as int);
        lemma_mul_div_le(b as int, w as int, SIN_ONE as int);
    }
    let b: u64 = SIN_C1 - b * w / (SIN_ONE as u64);
    proof {
        lemma_mul_bound(m as int, b as int, SIN_ONE as int, SIN_C1 as int);
    }
    let r: u64 = m * b / 1_000_000_000;
    if r > SIN_ONE as u64 {
        SIN_ONE as u64
    } else {
        r
    }
}

/// Fixed-point sine, as executable code.
pub fn sin_units_exec(t: u32) -> (r: i64)
    requires
        t < HUE_UNIT,
    ensures
        r == sin_units(t as int),
        -(SIN_ONE as i64) <= r <= SIN_ONE as i64,
{
    if t < QUARTER_TURN {
        sin_quarter_exec(t) as i64
    } else if t < HALF_TURN {
        sin_quarter_exec(HALF_TURN - t) as i64
    } else if t < 750_000 {
        -(sin_quarter_exec(t - HALF_TURN) as i64)
    } else {
        -(sin_quarter_exec(HUE_UNIT - t) as i64)
    }
}

/// Fixed-point cosine, as executable code.
pub fn cos_units_exec(t: u32) -> (r: i64)
    requires
        t < HUE_UNIT,
    ensures
        r == cos_units(t as int),
        -(SIN_ONE as i64) <= r <= SIN_ONE as i64,
{
    if t < 750_000 {
        sin_units_exec(t + QUARTER_TURN)
    } else {
        sin_units_exec(t - 750_000)
    }
}

fn atan_small_exec(v: u64) -> (a: u64)
    requires
        v <= ATAN_FOLD + 1,
    ensures
        a == atan_small(v as int),
        a <= 66_000,
{
    proof {
        lemma_mul_bound(v as int, v as int, SIN_ONE as int, SIN_ONE as int);
        lemma_mul_div_le(v as int, v as int, SIN_ONE as int);
    }
    let w: u64 = v * v / (SIN_ONE as u64);
    proof {
        lemma_mul_div_le(ATAN_C9 as int, w as int, SIN_ONE as int);
    }
    let a: u64 = ATAN_C7 - ATAN_C9 * w / (SIN_ONE as u64);
    proof {
        lemma_mul_bound(a as int, w as int, ATAN_C7 as int, SIN_ONE as int);
        lemma_mul_div_le(a as int, w as int, SIN_ONE as int);
    }
    let a: u64 = ATAN_C5 - a * w / (SIN_ONE as u64);
    proof {
        lemma_mul_bound(a as int, w as int, ATAN_C5 as int, SIN_ONE as int);
        lemma_mul_div_le(a as int, w as int, SIN_ONE as int);
    }
    let a: u64 = ATAN_C3 - a * w / (SIN_ONE as u64);
    proof {
        lemma_mul_bound(a as int, w as int, ATAN_C3 as int, SIN_ONE as int);
        lemma_mul_div_le(a as int, w as int, SIN_ONE as int);
    }
    let a: u64 = ATAN_C1 - a * w / (SIN_ONE as u64);
    proof {
        lemma_mul_bound(v as int, a as int, (ATAN_FOLD + 1) as int, ATAN_C1 as int);
        lemma_div_is_ordered(0, (v * a) as int, 10_000_000_000);
        lemma_div_is_ordered((v * a) as int, 414_214int * 1_591_549_431, 10_000_000_000);
    }
    v * a / 10_000_000_000
}

fn atan_units_exec(r: u64) -> (a: u64)
    requires
        r <= SIN_ONE,
    ensures
        a == atan_units(r as int),
        a <= EIGHTH_TURN,
{
    if r <= ATAN_FOLD as u64 {
        atan_small_exec(r)
    } else {
        proof {
            assert((SIN_ONE - r) * (SIN_ONE as int) <= ((ATAN_FOLD + 1) as int) * (SIN_ONE + r))
                by (nonlinear_arith)
                requires
                    ATAN_FOLD as int + 1 <= r <= SIN_ONE,
                    SIN_ONE == 1_000_000,
                    ATAN_FOLD == 414_213,
            ;
            lemma_mul_bound(
                (SIN_ONE - r) as int,
                SIN_ONE as int,
                SIN_ONE as int,
                SIN_ONE as int,
            );
            lemma_div_is_ordered(0, ((SIN_ONE as u64 - r) * (SIN_ONE as u64)) as int, SIN_ONE + r);
            lemma_div_is_ordered(
                ((SIN_ONE as u64 - r) * (SIN_ONE as u64)) as int,
                ((ATAN_FOLD + 1) as int) * (SIN_ONE + r),
                SIN_ONE + r,
            );
            lemma_div_multiples_vanish((ATAN_FOLD + 1) as int, SIN_ONE + r);
            assert((SIN_ONE + r) * ((ATAN_FOLD + 1) as int) == ((ATAN_FOLD + 1) as int) * (SIN_ONE
                + r)) by (nonlinear_arith);
        }
        let v: u64 = (SIN_ONE as u64 - r) * (SIN_ONE as u64) / (SIN_ONE as u64 + r);
        EIGHTH_TURN as u64 - atan_small_exec(v)
    }
}

/// Fixed-point two-argument arctangent, as executable code. The arguments
/// are bounded so that at most eight unit vectors were summed.
pub fn atan2_units_exec(y: i64, x: i64) -> (r: u32)
    requires
        -8_000_000 <= y <= 8_000_000,
        -8_000_000 <= x <= 8_000_000,
    ensures
        r == atan2_units(y as int, x as int),
        r < HUE_UNIT,
{
    let ax: u64 = if x >= 0 {
        x as u64
    } else {
        (-x) as u64
    };
    let ay: u64 = if y >= 0 {
        y as u64
    } else {
        (-y) as u64
    };
    if ax == 0 && ay == 0 {
        return 0;
    }
    let q: u32 = if ay <= ax {
        let ratio: u64 = ay * (SIN_ONE as u64) / ax;
        proof {
            lemma_div_is_ordered((ay * (SIN_ONE as u64)) as int, (ax * (SIN_ONE as u64)) as int, ax as int);
            assert((ax as int) * (SIN_ONE as int) == (SIN_ONE as int) * (ax as int)) by (nonlinear_arith);
            lemma_div_multiples_vanish(SIN_ONE as int, ax as int);
            assert(ay * (SIN_ONE as u64) <= ax * (SIN_ONE as u64)) by (nonlinear_arith)
                requires
                    0 <= ay <= ax,
            ;
        }
        atan_units_exec(ratio) as u32
    } else {
        let ratio: u64 = ax * (SIN_ONE as u64) / ay;
        proof {
            lemma_div_is_ordered((ax * (SIN_ONE as u64)) as int, (ay * (SIN_ONE as u64)) as int, ay as int);
            assert((ay as int) * (SIN_ONE as int) == (SIN_ONE as int) * (ay as int)) by (nonlinear_arith);
            lemma_div_multiples_vanish(SIN_ONE as int, ay as int);
            assert(ax * (SIN_ONE as u64) <= ay * (SIN_ONE as u64)) by (nonlinear_arith)
                requires
                    0 <= ax <= ay,
            ;
        }
        QUARTER_TURN - atan_units_exec(ratio) as u32
    };
    let a: u32 = if x >= 0 && y >= 0 {
        q
    } else if x < 0 && y >= 0 {
        HALF_TURN - q
    } else if x < 0 {
        HALF_TURN + q
    } else {
        HUE_UNIT - q
    };
    if a >= HUE_UNIT {
        a - HUE_UNIT
    } else {
        a
    }
}

/// The circular mean of a non-empty list of at most eight normalized hues,
/// as executable code.
pub fn mean_hue_units(units: &Vec<u32>) -> (m: u32)
    requires
        1 <= units@.len() <= 8,
        forall|i: int| 0 <= i < units@.len() ==> units@[i] < HUE_UNIT,
    ensures
        m as int == mean_units(units@),
        m < HUE_UNIT,
{
    let n: usize = units.len();
    let first: u32 = units[0];
    let mut uniform: bool = true;
    let mut i: usize = 1;
    while i < n
        invariant
            1 <= i <= n,
            n == units@.len(),
            first == units@[0],
            uniform == (forall|j: int| 0 <= j < i ==> #[trigger] units@[j] == units@[0]),
        decreases n - i,
    {
        if units[i] != first {
            uniform = false;
        }
        i += 1;
    }
    if uniform {
        return first;
    }
    let mut sy: i64 = 0;
    let mut sx: i64 = 0;
    let mut k: usize = 0;
    while k < n
        invariant
            0 <= k <= n,
            n == units@.len() <= 8,
            forall|j: int| 0 <= j < n ==> units@[j] < HUE_UNIT,
            sy == sum_sin_upto(units@, k as int),
            sx == sum_cos_upto(units@, k as int),
            -(k as int) * (SIN_ONE as int) <= sy <= (k as int) * (SIN_ONE as int),
            -(k as int) * (SIN_ONE as int) <= sx <= (k as int) * (SIN_ONE as int),
        decreases n - k,
    {
        let u: u32 = units[k];
        sy = sy + sin_units_exec(u);
        sx = sx + cos_units_exec(u);
        k += 1;
    }
    atan2_units_exec(sy, sx)
}

/// The unit counts behind a list of hues.
pub open spec fn hue_views(s: Seq<Hue>) -> Seq<u32> {
    s.map_values(|v: Hue| v@)
}

/// The circular mean of a non-empty list of hues, as collected from a
/// Moore neighborhood (at most eight entries).
pub fn average_hue(hues: &Vec<Hue>) -> (h: Hue)
    requires
        1 <= hues@.len() <= 8,
    ensures
        h@ as int == mean_units(hue_views(hues@)),
{
    let n: usize = hues.len();
    let mut units: Vec<u32> = Vec::new();
    let mut i: usize = 0;
    while i < n
        invariant
            i <= n,
            n == hues@.len(),
            units@.len() == i,
            forall|j: int| 0 <= j < i ==> #[trigger] units@[j] == hues@[j]@ && units@[j] < HUE_UNIT,
        decreases n - i,
    {
        let hv: Hue = hues[i];
        units.push(hv.units());
        i += 1;
    }
    proof {
        assert(units@ =~= hue_views(hues@));
    }
    let m: u32 = mean_hue_units(&units);
    Hue::from_units(m)
}

} // verus!
