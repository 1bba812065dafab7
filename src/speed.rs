use vstd::prelude::*;

verus! {

/// Number of fixed-point units that make up a multiplier of exactly one.
pub const MICROS_PER_UNIT: u64 = 1_000_000;

/// A time multiplier in fixed point: the multiplier is `micros / 1_000_000`.
///
/// A usable multiplier is positive; zero is representable so that
/// configuration validation can reject it.
#[derive(Clone, Copy, Debug, PartialEq, Eq, Structural)]
pub struct Speed {
    pub micros: u64,
}

impl Speed {
    /// The multiplier is strictly greater than zero.
    pub open spec fn is_valid(self) -> bool {
        self.micros > 0
    }

    /// The multiplier of real time.
    pub open spec fn spec_one() -> Speed {
        Speed { micros: MICROS_PER_UNIT }
    }

    pub fn from_micros(micros: u64) -> (r: Speed)
        ensures
            r.micros == micros,
    {
        Speed { micros }
    }

    /// Normal speed: virtual time runs as fast as real time.
    pub fn one() -> (r: Speed)
        ensures
            r == Speed::spec_one(),
            r.is_valid(),
    {
        Speed { micros: MICROS_PER_UNIT }
    }

    pub fn micros(&self) -> (r: u64)
        ensures
            r == self.micros,
    {
        self.micros
    }

    pub fn is_positive(&self) -> (r: bool)
        ensures
            r == self.is_valid(),
    {
        self.micros > 0
    }
}

/// `d * speed`, rounded toward zero, for a signed real delta `d`.
pub open spec fn scale(d: int, s: Speed) -> int {
    if d >= 0 {
        (d * s.micros) / (MICROS_PER_UNIT as int)
    } else {
        -(((-d) * s.micros) / (MICROS_PER_UNIT as int))
    }
}

/// `d * speed` rounded down, for a non-negative delta below 2^64.
pub fn scale_magnitude(d: u64, s: Speed) -> (r: u128)
    ensures
        r == scale(d as int, s),
{
    assert((d as int) * (s.micros as int) <= 0xffff_ffff_ffff_ffff * 0xffff_ffff_ffff_ffff)
        by (nonlinear_arith);
    let prod: u128 = (d as u128) * (s.micros as u128);
    prod / (MICROS_PER_UNIT as u128)
}

} // verus!
