use vstd::prelude::*;

verus! {

/// Additive constant of the splitmix64 state sequence.
pub const RNG_GAMMA: u64 = 0x9E37_79B9_7F4A_7C15;

/// First multiplier of the splitmix64 output mix.
pub const MIX_M1: u64 = 0xBF58_476D_1CE4_E5B9;

/// Second multiplier of the splitmix64 output mix.
pub const MIX_M2: u64 = 0x94D0_49BB_1331_11EB;

/// The splitmix64 finalizer: a bijective scrambling of a 64-bit word.
pub open spec fn mix64(z: u64) -> u64 {
    let a = z ^ (z >> 30);
    let b = vstd::wrapping::u64_specs::wrapping_mul(a, MIX_M1);
    let c = b ^ (b >> 27);
    let d = vstd::wrapping::u64_specs::wrapping_mul(c, MIX_M2);
    d ^ (d >> 31)
}

/// The generator state that follows `s`.
pub open spec fn rng_next_state(s: u64) -> u64 {
    vstd::wrapping::u64_specs::wrapping_add(s, RNG_GAMMA)
}

/// The word drawn when the generator is advanced from state `s`.
pub open spec fn rng_output(s: u64) -> u64 {
    mix64(rng_next_state(s))
}

/// A deterministic 64-bit pseudo-random generator (the splitmix64 stream).
///
/// Every draw is a pure function of the seed, so a simulation that owns
/// its generator is reproducible from the seed alone.
pub struct Rng64 {
    state: u64,
}

impl View for Rng64 {
    type V = u64;

    closed spec fn view(&self) -> u64 {
        self.state
    }
}

/// The splitmix64 finalizer, as executable code.
pub fn mix64_exec(z: u64) -> (r: u64)
    ensures
        r == mix64(z),
{
    let a: u64 = z ^ (z >> 30);
    let b: u64 = a.wrapping_mul(MIX_M1);
    let c: u64 = b ^ (b >> 27);
    let d: u64 = c.wrapping_mul(MIX_M2);
    d ^ (d >> 31)
}

impl Rng64 {
    /// A generator that will replay the stream belonging to `seed`.
    pub fn seeded(seed: u64) -> (r: Rng64)
        ensures
            r@ == seed,
    {
        Rng64 { state: seed }
    }

    /// Advance the state by the stream constant and mix the new state
    /// into the returned word.
    pub fn next_u64(&mut self) -> (r: u64)
        ensures
            final(self)@ == rng_next_state(old(self)@),
            r == rng_output(old(self)@),
    {
        self.state = self.state.wrapping_add(RNG_GAMMA);
        mix64_exec(self.state)
    }
}

} // verus!
