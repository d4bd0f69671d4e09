use vstd::prelude::*;

use crate::grid::GameOfLife;
use crate::hue::{hue_units_of, Hue};
use crate::view::GridView;

verus! {

/// Whether bit `i` of the row mask `m` is set. Bit `i` of a row stands
/// for the cell `i` columns right of the stamp's anchor.
pub open spec fn mask_bit(m: u32, i: int) -> bool {
    0 <= i < 32 && (m >> (i as u32)) & 1u32 == 1u32
}

/// The mathematical content of a stamp: a `width` x `height` bitmap,
/// stored row-major: bit `(i, j)` at index `j * width + i`.
pub struct StampView {
    pub width: int,
    pub height: int,
    pub bits: Seq<bool>,
}

impl StampView {
    pub open spec fn wf(self) -> bool {
        &&& 1 <= self.width
        &&& 1 <= self.height
        &&& self.width * self.height <= usize::MAX
        &&& self.bits.len() == self.width * self.height
    }

    /// The bitmap index of position `(i, j)`.
    pub open spec fn idx(self, i: int, j: int) -> int {
        j * self.width + i
    }

    /// Whether the stamp sets the cell `i` columns right of and `j` rows
    /// below its anchor.
    pub open spec fn bit_at(self, i: int, j: int) -> bool {
        self.bits[self.idx(i, j)]
    }
}

/// Whether a stamp of view `s` matches the given row masks at the given
/// width: the named patterns of the catalog are pinned down this way.
pub open spec fn stamp_matches(s: StampView, rows: Seq<u32>, width: int) -> bool {
    &&& s.wf()
    &&& s.width == width
    &&& s.height == rows.len()
    &&& forall|i: int, j: int|
        0 <= i < width && 0 <= j < rows.len() ==> #[trigger] s.bit_at(i, j) == mask_bit(rows[j], i)
}

/// Whether the whole stamp, anchored at `(x, y)`, lies inside the grid.
pub open spec fn stamp_fits(g: GridView, s: StampView, x: int, y: int) -> bool {
    x + s.width <= g.width && y + s.height <= g.height
}

/// Whether the stamp anchored at `(x, y)` sets the grid cell `(a, b)`.
pub open spec fn stamp_covers(s: StampView, x: int, y: int, a: int, b: int) -> bool {
    x <= a < x + s.width && y <= b < y + s.height && s.bit_at(a - x, b - y)
}

/// Row masks of the glider stamp.
pub open spec fn glider_rows() -> Seq<u32> {
    seq![
        0b001u32,
        0b110u32,
        0b011u32,
    ]
}

/// Row masks of the blinker stamp.
pub open spec fn blinker_rows() -> Seq<u32> {
    seq![
        0b111u32,
    ]
}

/// Row masks of the toad stamp.
pub open spec fn toad_rows() -> Seq<u32> {
    seq![
        0b1110u32,
        0b0111u32,
    ]
}

/// Row masks of the beacon stamp.
pub open spec fn beacon_rows() -> Seq<u32> {
    seq![
        0b0011u32,
        0b0011u32,
        0b1100u32,
        0b1100u32,
    ]
}

/// Row masks of the lwss stamp.
pub open spec fn lwss_rows() -> Seq<u32> {
    seq![
        0b11110u32,
        0b10001u32,
        0b10000u32,
        0b01001u32,
    ]
}

/// Row masks of the small flower stamp.
pub open spec fn small_flower_rows() -> Seq<u32> {
    seq![
        0b010u32,
        0b111u32,
        0b010u32,
    ]
}

/// Row masks of the flower stamp.
pub open spec fn flower_rows() -> Seq<u32> {
    seq![
        0b00100u32,
        0b01010u32,
        0b10101u32,
        0b01010u32,
        0b00100u32,
    ]
}

/// Row masks of the large flower stamp.
pub open spec fn large_flower_rows() -> Seq<u32> {
    seq![
        0b0001000u32,
        0b0100010u32,
        0b0010100u32,
        0b1001001u32,
        0b0010100u32,
        0b0100010u32,
        0b0001000u32,
    ]
}

/// Row masks of the flower2 stamp.
pub open spec fn flower2_rows() -> Seq<u32> {
    seq![
        0b001100u32,
        0b010010u32,
        0b101101u32,
        0b101101u32,
        0b010010u32,
        0b001100u32,
    ]
}

/// Row masks of the butterfly stamp.
pub open spec fn butterfly_rows() -> Seq<u32> {
    seq![
        0b000000u32,
        0b001110u32,
        0b010100u32,
        0b011000u32,
        0b010000u32,
        0b000000u32,
    ]
}

/// Row masks of the flower3 stamp.
pub open spec fn flower3_rows() -> Seq<u32> {
    seq![
        0b000000000000000u32,
        0b000000010000000u32,
        0b000000101000000u32,
        0b000000101000000u32,
        0b000000010000000u32,
        0b000000000000000u32,
        0b001100000001100u32,
        0b010010000010010u32,
        0b001100000001100u32,
        0b000000000000000u32,
        0b000000010000000u32,
        0b000000101000000u32,
        0b000000101000000u32,
        0b000000010000000u32,
        0b000000000000000u32,
    ]
}

/// Row masks of the bottle stamp.
pub open spec fn bottle_rows() -> Seq<u32> {
    seq![
        0b000000000000000u32,
        0b000000001100000u32,
        0b000000001010000u32,
        0b000100001011000u32,
        0b001100000100000u32,
        0b010010000000000u32,
        0b011100000000000u32,
        0b000000000000000u32,
        0b000000000001110u32,
        0b000000000010010u32,
        0b000001000001100u32,
        0b000110100001000u32,
        0b000010100000000u32,
        0b000001100000000u32,
        0b000000000000000u32,
    ]
}

/// Row masks of the giant flower stamp.
pub open spec fn giant_flower_rows() -> Seq<u32> {
    seq![
        0b000010000u32,
        0b010000010u32,
        0b001000100u32,
        0b000101000u32,
        0b100010001u32,
        0b000101000u32,
        0b001000100u32,
        0b010000010u32,
        0b000010000u32,
    ]
}

/// Row masks of the heart stamp.
pub open spec fn heart_rows() -> Seq<u32> {
    seq![
        0b000000u32,
        0b001000u32,
        0b010100u32,
        0b101010u32,
        0b010100u32,
        0b001000u32,
    ]
}

/// A constant rectangular bitmap that can be placed into a grid.
pub struct Stamp {
    width: usize,
    height: usize,
    bits: Vec<bool>,
}

impl View for Stamp {
    type V = StampView;

    closed spec fn view(&self) -> StampView {
        StampView { width: self.width as int, height: self.height as int, bits: self.bits@ }
    }
}

impl Stamp {
    /// Number of columns of the bitmap.
    pub fn width(&self) -> (w: usize)
        ensures
            w == self@.width,
    {
        self.width
    }

    /// Number of rows of the bitmap.
    pub fn height(&self) -> (h: usize)
        ensures
            h == self@.height,
    {
        self.height
    }

    /// Whether the bitmap sets position `(i, j)`.
    pub fn bit(&self, i: usize, j: usize) -> (b: bool)
        requires
            self@.wf(),
            i < self@.width,
            j < self@.height,
        ensures
            b == self@.bit_at(i as int, j as int),
    {
        proof {
            assert(0 <= (j as int) * (self.width as int) + i < (self.width as int) * (
            self.height as int)) by (nonlinear_arith)
                requires
                    0 <= i < self.width,
                    0 <= j < self.height,
            ;
        }
        self.bits[j * self.width + i]
    }

    /// A stamp from one row mask per bitmap row; bit `i` of a mask is the
    /// cell `i` columns right of the anchor.
    pub fn from_rows(width: usize, rows: &Vec<u32>) -> (s: Stamp)
        requires
            1 <= width <= 32,
            1 <= rows@.len(),
            width * rows@.len() <= usize::MAX,
        ensures
            stamp_matches(s@, rows@, width as int),
    {
        let height: usize = rows.len();
        let mut bits: Vec<bool> = Vec::new();
        let mut j: usize = 0;
        while j < height
            invariant
                j <= height,
                height == rows@.len(),
                1 <= width <= 32,
                width * height <= usize::MAX,
                bits@.len() == j * width,
                forall|a: int, b: int|
                    0 <= a < width && 0 <= b < j ==> #[trigger] bits@[b * width + a] == mask_bit(
                        rows@[b],
                        a,
                    ),
            decreases height - j,
        {
            proof {
                assert((j as int) * width + width <= width * height) by (nonlinear_arith)
                    requires
                        0 <= j < height,
                        0 <= width,
                ;
            }
            let mut i: usize = 0;
            while i < width
                invariant
                    i <= width,
                    j < height,
                    height == rows@.len(),
                    1 <= width <= 32,
                    width * height <= usize::MAX,
                    (j as int) * width + width <= width * height,
                    bits@.len() == j * width + i,
                    forall|a: int, b: int|
                        0 <= a < width && 0 <= b < j ==> #[trigger] bits@[b * width + a]
                            == mask_bit(rows@[b], a),
                    forall|a: int|
                        0 <= a < i ==> #[trigger] bits@[(j as int) * width + a] == mask_bit(
                            rows@[j as int],
                            a,
                        ),
                decreases width - i,
            {
                let m: u32 = rows[j];
                bits.push((m >> (i as u32)) & 1u32 == 1u32);
                proof {
                    assert forall|a: int, b: int| 0 <= a < width && 0 <= b < j implies #[trigger] bits@[b
                        * width + a] == mask_bit(rows@[b], a) by {
                        assert(b * width + a < (j as int) * width) by (nonlinear_arith)
                            requires
                                0 <= a < width,
                                0 <= b,
                                b + 1 <= j,
                        ;
                    }
                }
                i += 1;
            }
            proof {
                assert(((j + 1) as int) * width == (j as int) * width + width) by (nonlinear_arith);
                assert forall|a: int, b: int| 0 <= a < width && 0 <= b < j + 1 implies #[trigger] bits@[b
                    * width + a] == mask_bit(rows@[b], a) by {
                    if b < j {
                        assert(b * width + a < (j as int) * width) by (nonlinear_arith)
                            requires
                                0 <= a < width,
                                0 <= b,
                                b + 1 <= j,
                        ;
                    }
                }
            }
            j += 1;
        }
        let s = Stamp { width, height, bits };
        proof {
            assert((height as int) * width == (width as int) * height) by (nonlinear_arith);
            assert forall|i2: int, j2: int| 0 <= i2 < width && 0 <= j2 < height implies #[trigger] s@.bit_at(
                i2,
                j2,
            ) == mask_bit(rows@[j2], i2) by {
                assert(s@.bits[j2 * (width as int) + i2] == mask_bit(rows@[j2], i2));
            }
        }
        s
    }
}

impl Stamp {
    /// The glider: five cells in a 3x3 box, a spaceship that travels
    /// diagonally with period four.
    pub fn glider() -> (s: Stamp)
        ensures
            stamp_matches(s@, glider_rows(), 3),
    {
        let mut rows: Vec<u32> = Vec::new();
        rows.push(0b001u32);
        rows.push(0b110u32);
        rows.push(0b011u32);
        proof {
            assert(rows@ =~= glider_rows());
        }
        Stamp::from_rows(3, &rows)
    }

    /// The blinker: three cells in a row, the smallest oscillator, with
    /// period two.
    pub fn blinker() -> (s: Stamp)
        ensures
            stamp_matches(s@, blinker_rows(), 3),
    {
        let mut rows: Vec<u32> = Vec::new();
        rows.push(0b111u32);
        proof {
            assert(rows@ =~= blinker_rows());
        }
        Stamp::from_rows(3, &rows)
    }

    /// The toad: six cells in a 4x2 box, an oscillator with period two.
    pub fn toad() -> (s: Stamp)
        ensures
            stamp_matches(s@, toad_rows(), 4),
    {
        let mut rows: Vec<u32> = Vec::new();
        rows.push(0b1110u32);
        rows.push(0b0111u32);
        proof {
            assert(rows@ =~= toad_rows());
        }
        Stamp::from_rows(4, &rows)
    }

    /// The beacon: two 2x2 blocks on a diagonal, an oscillator with
    /// period two.
    pub fn beacon() -> (s: Stamp)
        ensures
            stamp_matches(s@, beacon_rows(), 4),
    {
        let mut rows: Vec<u32> = Vec::new();
        rows.push(0b0011u32);
        rows.push(0b0011u32);
        rows.push(0b1100u32);
        rows.push(0b1100u32);
        proof {
            assert(rows@ =~= beacon_rows());
        }
        Stamp::from_rows(4, &rows)
    }

    /// The light-weight spaceship: nine cells in a 5x4 box, a spaceship
    /// that travels horizontally with period four.
    pub fn lwss() -> (s: Stamp)
        ensures
            stamp_matches(s@, lwss_rows(), 5),
    {
        let mut rows: Vec<u32> = Vec::new();
        rows.push(0b11110u32);
        rows.push(0b10001u32);
        rows.push(0b10000u32);
        rows.push(0b01001u32);
        proof {
            assert(rows@ =~= lwss_rows());
        }
        Stamp::from_rows(5, &rows)
    }

    /// A decorative 3x3 flower: a center cell with four petals.
    pub fn small_flower() -> (s: Stamp)
        ensures
            stamp_matches(s@, small_flower_rows(), 3),
    {
        let mut rows: Vec<u32> = Vec::new();
        rows.push(0b010u32);
        rows.push(0b111u32);
        rows.push(0b010u32);
        proof {
            assert(rows@ =~= small_flower_rows());
        }
        Stamp::from_rows(3, &rows)
    }

    /// A decorative 5x5 flower: a center with two rings of petals.
    pub fn flower() -> (s: Stamp)
        ensures
            stamp_matches(s@, flower_rows(), 5),
    {
        let mut rows: Vec<u32> = Vec::new();
        rows.push(0b00100u32);
        rows.push(0b01010u32);
        rows.push(0b10101u32);
        rows.push(0b01010u32);
        rows.push(0b00100u32);
        proof {
            assert(rows@ =~= flower_rows());
        }
        Stamp::from_rows(5, &rows)
    }

    /// A decorative 7x7 flower: a center with three rings of petals.
    pub fn large_flower() -> (s: Stamp)
        ensures
            stamp_matches(s@, large_flower_rows(), 7),
    {
        let mut rows: Vec<u32> = Vec::new();
        rows.push(0b0001000u32);
        rows.push(0b0100010u32);
        rows.push(0b0010100u32);
        rows.push(0b1001001u32);
        rows.push(0b0010100u32);
        rows.push(0b0100010u32);
        rows.push(0b0001000u32);
        proof {
            assert(rows@ =~= large_flower_rows());
        }
        Stamp::from_rows(7, &rows)
    }

    /// A decorative 6x6 rosette: a block inside a broken ring.
    pub fn flower2() -> (s: Stamp)
        ensures
            stamp_matches(s@, flower2_rows(), 6),
    {
        let mut rows: Vec<u32> = Vec::new();
        rows.push(0b001100u32);
        rows.push(0b010010u32);
        rows.push(0b101101u32);
        rows.push(0b101101u32);
        rows.push(0b010010u32);
        rows.push(0b001100u32);
        proof {
            assert(rows@ =~= flower2_rows());
        }
        Stamp::from_rows(6, &rows)
    }

    /// A decorative 6x6 butterfly sprite.
    pub fn butterfly() -> (s: Stamp)
        ensures
            stamp_matches(s@, butterfly_rows(), 6),
    {
        let mut rows: Vec<u32> = Vec::new();
        rows.push(0b000000u32);
        rows.push(0b001110u32);
        rows.push(0b010100u32);
        rows.push(0b011000u32);
        rows.push(0b010000u32);
        rows.push(0b000000u32);
        proof {
            assert(rows@ =~= butterfly_rows());
        }
        Stamp::from_rows(6, &rows)
    }

    /// A decorative 15x15 sprite of three diamond clusters: one ring
    /// above, one ring below, and a pair of rings in the middle.
    pub fn flower3() -> (s: Stamp)
        ensures
            stamp_matches(s@, flower3_rows(), 15),
    {
        let mut rows: Vec<u32> = Vec::new();
        rows.push(0b000000000000000u32);
        rows.push(0b000000010000000u32);
        rows.push(0b000000101000000u32);
        rows.push(0b000000101000000u32);
        rows.push(0b000000010000000u32);
        rows.push(0b000000000000000u32);
        rows.push(0b001100000001100u32);
        rows.push(0b010010000010010u32);
        rows.push(0b001100000001100u32);
        rows.push(0b000000000000000u32);
        rows.push(0b000000010000000u32);
        rows.push(0b000000101000000u32);
        rows.push(0b000000101000000u32);
        rows.push(0b000000010000000u32);
        rows.push(0b000000000000000u32);
        proof {
            assert(rows@ =~= flower3_rows());
        }
        Stamp::from_rows(15, &rows)
    }

    /// A decorative 15x15 sprite of scattered small ships and blocks.
    pub fn bottle() -> (s: Stamp)
        ensures
            stamp_matches(s@, bottle_rows(), 15),
    {
        let mut rows: Vec<u32> = Vec::new();
        rows.push(0b000000000000000u32);
        rows.push(0b000000001100000u32);
        rows.push(0b000000001010000u32);
        rows.push(0b000100001011000u32);
        rows.push(0b001100000100000u32);
        rows.push(0b010010000000000u32);
        rows.push(0b011100000000000u32);
        rows.push(0b000000000000000u32);
        rows.push(0b000000000001110u32);
        rows.push(0b000000000010010u32);
        rows.push(0b000001000001100u32);
        rows.push(0b000110100001000u32);
        rows.push(0b000010100000000u32);
        rows.push(0b000001100000000u32);
        rows.push(0b000000000000000u32);
        proof {
            assert(rows@ =~= bottle_rows());
        }
        Stamp::from_rows(15, &rows)
    }
}

impl Stamp {
    /// A decorative 9x9 flower: diagonal petals around a center, with
    /// a tip on each axis.
    pub fn giant_flower() -> (s: Stamp)
        ensures
            stamp_matches(s@, giant_flower_rows(), 9),
    {
        let mut rows: Vec<u32> = Vec::new();
        rows.push(0b000010000u32);
        rows.push(0b010000010u32);
        rows.push(0b001000100u32);
        rows.push(0b000101000u32);
        rows.push(0b100010001u32);
        rows.push(0b000101000u32);
        rows.push(0b001000100u32);
        rows.push(0b010000010u32);
        rows.push(0b000010000u32);
        proof {
            assert(rows@ =~= giant_flower_rows());
        }
        Stamp::from_rows(9, &rows)
    }

    /// A decorative 6x6 heart sprite: a nine-cell diamond of petals.
    pub fn heart() -> (s: Stamp)
        ensures
            stamp_matches(s@, heart_rows(), 6),
    {
        let mut rows: Vec<u32> = Vec::new();
        rows.push(0b000000u32);
        rows.push(0b001000u32);
        rows.push(0b010100u32);
        rows.push(0b101010u32);
        rows.push(0b010100u32);
        rows.push(0b001000u32);
        proof {
            assert(rows@ =~= heart_rows());
        }
        Stamp::from_rows(6, &rows)
    }
}

impl GameOfLife {
    /// Place a stamp with its anchor (top-left corner) at `(x, y)`: every
    /// 1-bit makes its cell alive with exactly the given hue, every 0-bit
    /// leaves its cell untouched, so stamping never clears a live cell.
    /// A stamp that would overflow the grid is rejected wholesale, and
    /// nothing changes.
    pub fn stamp(&mut self, x: usize, y: usize, stamp: &Stamp, hue: Option<Hue>)
        requires
            old(self).wf(),
            stamp@.wf(),
        ensures
            final(self).wf(),
            final(self)@.width == old(self)@.width,
            final(self)@.height == old(self)@.height,
            final(self)@.color_variation == old(self)@.color_variation,
            final(self)@.alive_color == old(self)@.alive_color,
            final(self)@.dead_color == old(self)@.dead_color,
            final(self).rng_state() == old(self).rng_state(),
            !stamp_fits(old(self)@, stamp@, x as int, y as int) ==> *final(self) == *old(self),
            forall|a: int, b: int|
                old(self)@.in_bounds(a, b) && stamp_fits(old(self)@, stamp@, x as int, y as int)
                    && stamp_covers(stamp@, x as int, y as int, a, b) ==> #[trigger] final(self)@.alive_at(a, b),
            forall|a: int, b: int|
                old(self)@.in_bounds(a, b) && stamp_fits(old(self)@, stamp@, x as int, y as int)
                    && stamp_covers(stamp@, x as int, y as int, a, b) ==> #[trigger] final(self)@.hue_at(a, b) == hue_units_of(hue),
            forall|a: int, b: int|
                old(self)@.in_bounds(a, b) && !(stamp_fits(old(self)@, stamp@, x as int, y as int)
                    && stamp_covers(stamp@, x as int, y as int, a, b)) ==> #[trigger] final(self)@.alive_at(a, b) == old(self)@.alive_at(a, b),
            forall|a: int, b: int|
                old(self)@.in_bounds(a, b) && !(stamp_fits(old(self)@, stamp@, x as int, y as int)
                    && stamp_covers(stamp@, x as int, y as int, a, b)) ==> #[trigger] final(self)@.hue_at(a, b) == old(self)@.hue_at(a, b),
            forall|a: int, b: int|
                old(self)@.in_bounds(a, b) && old(self)@.alive_at(a, b) ==> #[trigger] final(self)@.alive_at(a, b),
    {
        let gw: usize = self.width() as usize;
        let gh: usize = self.height() as usize;
        let sw: usize = stamp.width();
        let sh: usize = stamp.height();
        if !(x <= gw && sw <= gw - x && y <= gh && sh <= gh - y) {
            return ;
        }
        let ghost cov = |a: int, b: int| stamp_covers(stamp@, x as int, y as int, a, b);
        let mut j: usize = 0;
        while j < sh
            invariant
                j <= sh,
                self.wf(),
                stamp@.wf(),
                gw == old(self)@.width,
                gh == old(self)@.height,
                sw == stamp@.width,
                sh == stamp@.height,
                x + sw <= gw,
                y + sh <= gh,
                cov == (|a: int, b: int| stamp_covers(stamp@, x as int, y as int, a, b)),
                self@.width == old(self)@.width,
                self@.height == old(self)@.height,
                self@.color_variation == old(self)@.color_variation,
                self@.alive_color == old(self)@.alive_color,
                self@.dead_color == old(self)@.dead_color,
                self.rng_state() == old(self).rng_state(),
                forall|a: int, b: int|
                    old(self)@.in_bounds(a, b) && cov(a, b) && b - y < j ==> #[trigger] self@.alive_at(a, b),
                forall|a: int, b: int|
                    old(self)@.in_bounds(a, b) && cov(a, b) && b - y < j ==> #[trigger] self@.hue_at(a, b) == hue_units_of(hue),
                forall|a: int, b: int|
                    old(self)@.in_bounds(a, b) && !(cov(a, b) && b - y < j) ==> #[trigger] self@.alive_at(a, b) == old(self)@.alive_at(a, b),
                forall|a: int, b: int|
                    old(self)@.in_bounds(a, b) && !(cov(a, b) && b - y < j) ==> #[trigger] self@.hue_at(a, b) == old(self)@.hue_at(a, b),
            decreases sh - j,
        {
            let mut i: usize = 0;
            while i < sw
                invariant
                    i <= sw,
                    j < sh,
                    self.wf(),
                    stamp@.wf(),
                    gw == old(self)@.width,
                    gh == old(self)@.height,
                    sw == stamp@.width,
                    sh == stamp@.height,
                    x + sw <= gw,
                    y + sh <= gh,
                    cov == (|a: int, b: int| stamp_covers(stamp@, x as int, y as int, a, b)),
                    self@.width == old(self)@.width,
                    self@.height == old(self)@.height,
                    self@.color_variation == old(self)@.color_variation,
                    self@.alive_color == old(self)@.alive_color,
                    self@.dead_color == old(self)@.dead_color,
                    self.rng_state() == old(self).rng_state(),
                    forall|a: int, b: int|
                        old(self)@.in_bounds(a, b) && cov(a, b) && (b - y < j || (b - y == j && a - x < i)) ==> #[trigger] self@.alive_at(a, b),
                    forall|a: int, b: int|
                        old(self)@.in_bounds(a, b) && cov(a, b) && (b - y < j || (b - y == j && a - x < i)) ==> #[trigger] self@.hue_at(a, b) == hue_units_of(hue),
                    forall|a: int, b: int|
                        old(self)@.in_bounds(a, b) && !(cov(a, b) && (b - y < j || (b - y == j && a - x < i))) ==> #[trigger] self@.alive_at(a, b) == old(self)@.alive_at(a, b),
                    forall|a: int, b: int|
                        old(self)@.in_bounds(a, b) && !(cov(a, b) && (b - y < j || (b - y == j && a - x < i))) ==> #[trigger] self@.hue_at(a, b) == old(self)@.hue_at(a, b),
                decreases sw - i,
            {
                if stamp.bit(i, j) {
                    self.set_cell_with_color(x + i, y + j, true, hue);
                }
                i += 1;
            }
            j += 1;
        }
        proof {
            assert forall|a: int, b: int|
                old(self)@.in_bounds(a, b) && old(self)@.alive_at(a, b) implies #[trigger] final(self)@.alive_at(a, b) by {
                assert(cov(a, b) == stamp_covers(stamp@, x as int, y as int, a, b));
            }
            assert forall|a: int, b: int|
                old(self)@.in_bounds(a, b) && stamp_fits(old(self)@, stamp@, x as int, y as int)
                    && stamp_covers(stamp@, x as int, y as int, a, b) implies #[trigger] final(self)@.alive_at(a, b) && final(self)@.hue_at(a, b) == hue_units_of(hue) by {
                assert(cov(a, b) == stamp_covers(stamp@, x as int, y as int, a, b));
            }
            assert forall|a: int, b: int|
                old(self)@.in_bounds(a, b) && !(stamp_fits(old(self)@, stamp@, x as int, y as int)
                    && stamp_covers(stamp@, x as int, y as int, a, b)) implies #[trigger] final(self)@.alive_at(a, b) == old(self)@.alive_at(a, b) && final(self)@.hue_at(a, b) == old(self)@.hue_at(a, b) by {
                assert(cov(a, b) == stamp_covers(stamp@, x as int, y as int, a, b));
            }
        }
    }
}

} // verus!
