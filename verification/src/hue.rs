use vstd::prelude::*;

use crate::rng::{rng_next_state, rng_output, Rng64};

verus! {

/// Number of representable hue steps in one full turn of the color wheel.
/// A hue value `u` stands for the real hue `u / HUE_UNIT` in `[0, 1)`.
pub const HUE_UNIT: u32 = 1_000_000;

/// An 8-bit RGBA color.
#[derive(Clone, Copy, Debug, PartialEq, Eq, Structural)]
pub struct Rgba {
    pub r: u8,
    pub g: u8,
    pub b: u8,
    pub a: u8,
}

/// A point on the color wheel, stored in millionths of a turn,
/// always normalized into `[0, HUE_UNIT)`.
#[derive(Clone, Copy, Debug, PartialEq, Eq, Structural)]
pub struct Hue {
    units: u32,
}

impl View for Hue {
    type V = u32;

    closed spec fn view(&self) -> u32 {
        self.units
    }
}

/// The unit counts behind an optional hue.
pub open spec fn hue_units_of(o: Option<Hue>) -> Option<u32> {
    match o {
        Some(h) => Some(h@),
        None => None,
    }
}

/// The hue drawn when a generator is advanced from state `s`,
/// folded onto the color wheel.
pub open spec fn rand_hue_units(s: u64) -> u32 {
    (rng_output(s) % (HUE_UNIT as u64)) as u32
}

/// HSV to RGB with S = V = 1, computed exactly in integer arithmetic.
/// The wheel splits into six sectors of extent `HUE_UNIT / 6`; the varying
/// channel is `floor(255 * x)` where `x` is the triangular wave
/// `1 - |((6 v) mod 2) - 1|` of the hue `v`, and alpha is opaque.
pub open spec fn hue_color(units: int) -> Rgba {
    let h6 = 6 * units;
    let sector = h6 / (HUE_UNIT as int);
    let m2 = h6 % (2 * HUE_UNIT as int);
    let x = if m2 < HUE_UNIT as int {
        m2
    } else {
        2 * (HUE_UNIT as int) - m2
    };
    let ch = ((255 * x) / (HUE_UNIT as int)) as u8;
    if sector == 0 {
        Rgba { r: 255, g: ch, b: 0, a: 255 }
    } else if sector == 1 {
        Rgba { r: ch, g: 255, b: 0, a: 255 }
    } else if sector == 2 {
        Rgba { r: 0, g: 255, b: ch, a: 255 }
    } else if sector == 3 {
        Rgba { r: 0, g: ch, b: 255, a: 255 }
    } else if sector == 4 {
        Rgba { r: ch, g: 0, b: 255, a: 255 }
    } else {
        Rgba { r: 255, g: 0, b: ch, a: 255 }
    }
}

impl Hue {
    #[verifier::type_invariant]
    spec fn inv(self) -> bool {
        self.units < HUE_UNIT
    }

    /// The hue `value mod 1`: any signed count of millionths of a turn
    /// wraps into `[0, 1)` by Euclidean remainder.
    pub fn new(value: i64) -> (h: Hue)
        ensures
            h@ == value as int % (HUE_UNIT as int),
    {
        let u: i64 = value.checked_rem_euclid(HUE_UNIT as i64).unwrap();
        Hue { units: u as u32 }
    }

    /// A hue directly from a unit count that is already normalized.
    pub fn from_units(units: u32) -> (h: Hue)
        requires
            units < HUE_UNIT,
        ensures
            h@ == units,
    {
        Hue { units }
    }

    /// The stored value, in millionths of a turn.
    pub fn units(&self) -> (u: u32)
        ensures
            u == self@,
            u < HUE_UNIT,
    {
        proof {
            use_type_invariant(&*self);
        }
        self.units
    }

    /// A hue drawn from the given generator, folded onto the wheel.
    pub fn random(rng: &mut Rng64) -> (h: Hue)
        ensures
            h@ == rand_hue_units(old(rng)@),
            final(rng)@ == rng_next_state(old(rng)@),
    {
        let word: u64 = rng.next_u64();
        Hue { units: (word % (HUE_UNIT as u64)) as u32 }
    }

    /// Value-wise addition modulo one full turn.
    pub fn add(self, other: Hue) -> (h: Hue)
        ensures
            h@ == (self@ + other@) % (HUE_UNIT as int),
    {
        proof {
            use_type_invariant(self);
            use_type_invariant(other);
        }
        let s: u32 = self.units + other.units;
        let u: u32 = if s >= HUE_UNIT {
            s - HUE_UNIT
        } else {
            s
        };
        Hue { units: u }
    }

    /// Convert to 8-bit sRGB via HSV with S = V = 1.
    pub fn to_color(&self) -> (c: Rgba)
        ensures
            c == hue_color(self@ as int),
    {
        proof {
            use_type_invariant(&*self);
        }
        let h6: u32 = 6 * self.units;
        let sector: u32 = h6 / HUE_UNIT;
        let m2: u32 = h6 % (2 * HUE_UNIT);
        let x: u32 = if m2 < HUE_UNIT {
            m2
        } else {
            2 * HUE_UNIT - m2
        };
        let ch: u32 = (255 * x as u64 / HUE_UNIT as u64) as u32;
        let ch: u8 = ch as u8;
        if sector == 0 {
            Rgba { r: 255, g: ch, b: 0, a: 255 }
        } else if sector == 1 {
            Rgba { r: ch, g: 255, b: 0, a: 255 }
        } else if sector == 2 {
            Rgba { r: 0, g: 255, b: ch, a: 255 }
        } else if sector == 3 {
            Rgba { r: 0, g: ch, b: 255, a: 255 }
        } else if sector == 4 {
            Rgba { r: ch, g: 0, b: 255, a: 255 }
        } else {
            Rgba { r: 255, g: 0, b: ch, a: 255 }
        }
    }
}

} // verus!
