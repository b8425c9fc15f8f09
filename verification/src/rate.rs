use vstd::prelude::*;

verus! {

/// A frequency in whole hertz.
#[derive(Clone, Copy, PartialEq, Eq, Structural, Debug)]
pub struct Hertz(pub u32);

/// An exact frequency, kept as the ratio `num / den` hertz.
///
/// The clock tree only ever divides an integer oscillator frequency by
/// integer dividers and multiplies it by an integer factor, so every tap
/// is an exact rational number; keeping the ratio avoids any rounding in
/// range checks and in the scoring.
#[derive(Clone, Copy, PartialEq, Eq, Structural, Debug)]
pub struct Rate {
    pub num: u64,
    pub den: u64,
}

impl Rate {
    /// The frequency rounded down to whole hertz.
    pub fn floor_hz(&self) -> (r: u64)
        requires
            self.den > 0,
        ensures
            r == self.num as int / self.den as int,
    {
        self.num / self.den
    }

    /// Whether the frequency is exactly `hz` hertz.
    pub fn is_exactly(&self, hz: u64) -> (r: bool)
        ensures
            r == (self.num as int == hz as int * self.den as int),
    {
        proof {
            assert(hz as int * self.den as int <= 0xffff_ffff_ffff_ffff * 0xffff_ffff_ffff_ffff)
                by (nonlinear_arith)
                requires
                    hz <= 0xffff_ffff_ffff_ffffu64,
                    self.den <= 0xffff_ffff_ffff_ffffu64,
            ;
        }
        (self.num as u128) == (hz as u128) * (self.den as u128)
    }
}

} // verus!
