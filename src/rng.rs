use vstd::prelude::*;

verus! {

/// A small, fast two-word pseudo-random generator (RomuDuoJr). Its whole
/// output is determined by the seed.
#[derive(Clone, Copy, Debug, PartialEq, Eq, Structural)]
pub struct StdRand {
    pub x: u64,
    pub y: u64,
}

pub const ROMU_MULTIPLIER: u64 = 15241094284759029579;

/// The state a seed starts from.
pub open spec fn seeded(seed: u64) -> StdRand {
    StdRand { x: seed ^ 0x12345, y: seed ^ 0x6789A }
}

/// `v` rotated left by 27 bits.
pub open spec fn rotl27(v: u64) -> u64 {
    (v << 27u64) | (v >> 37u64)
}

/// The next output and the state after it.
pub open spec fn rand_next(r: StdRand) -> (u64, StdRand) {
    (r.x, StdRand { x: ROMU_MULTIPLIER.wrapping_mul(r.y), y: rotl27(r.y.wrapping_sub(r.x)) })
}

/// A value below `bound` and the state after it; a bound of at most one
/// draws nothing and gives zero.
pub open spec fn rand_below(r: StdRand, bound: u64) -> (u64, StdRand) {
    if bound <= 1 {
        (0, r)
    } else {
        let (v, r1) = rand_next(r);
        (v % bound, r1)
    }
}

impl StdRand {
    /// A generator started from `seed`.
    pub fn with_seed(seed: u64) -> (r: StdRand)
        ensures
            r == seeded(seed),
    {
        StdRand { x: seed ^ 0x12345, y: seed ^ 0x6789A }
    }

    /// The next 64-bit output.
    pub fn next(&mut self) -> (r: u64)
        ensures
            (r, *final(self)) == rand_next(*old(self)),
    {
        let xp = self.x;
        let d = self.y.wrapping_sub(xp);
        self.x = ROMU_MULTIPLIER.wrapping_mul(self.y);
        self.y = (d << 27u64) | (d >> 37u64);
        xp
    }

    /// A value below `bound` (zero when `bound` is at most one).
    pub fn below(&mut self, bound: u64) -> (r: u64)
        ensures
            (r, *final(self)) == rand_below(*old(self), bound),
            bound > 1 ==> r < bound,
            bound <= 1 ==> r == 0,
    {
        if bound <= 1 {
            0
        } else {
            let v = self.next();
            v % bound
        }
    }
}

} // verus!
