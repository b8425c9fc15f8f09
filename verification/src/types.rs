use vstd::prelude::*;
use crate::rate::{Hertz, Rate};

verus! {

/// Bus prescaler: a power-of-two frequency divider.
#[derive(Clone, Copy, PartialEq, Eq, Structural, Debug)]
pub enum Prescaler {
    NotDivided,
    Div2,
    Div4,
    Div8,
    Div16,
    Div32,
    Div64,
    Div128,
    Div256,
    Div512,
}

/// System clock mux source.
#[derive(Clone, Copy, PartialEq, Eq, Structural, Debug)]
pub enum SysClockSrc {
    PLL,
    HSI,
    HSE(Hertz),
}

/// Microcontroller clock output source.
#[derive(Clone, Copy, PartialEq, Eq, Structural, Debug)]
pub enum MCOSrc {
    LSI,
    PLL,
    SysClk,
    HSI,
    HSE,
    LSE,
}

/// Low-speed clocks output source.
#[derive(Clone, Copy, PartialEq, Eq, Structural, Debug)]
pub enum LSCOSrc {
    LSI,
    LSE,
}

/// PLL clock input source.
#[derive(Clone, Copy, PartialEq, Eq, Structural, Debug)]
pub enum PLLSrc {
    HSI,
    HSE(Hertz),
    HSEBypass(Hertz),
}

/// PLL divider.
pub type PLLDiv = u8;

/// PLL multiplier.
pub type PLLMul = u8;

/// PLL configuration: input mux, input divider `m`, multiplier `n` and
/// the three output dividers. `q` and `p` are optional so that unused
/// outputs can be marked disabled.
#[derive(Clone, Copy, PartialEq, Eq, Debug)]
pub struct PllConfig {
    pub mux: PLLSrc,
    pub m: PLLDiv,
    pub n: PLLMul,
    pub r: PLLDiv,
    pub q: Option<PLLDiv>,
    pub p: Option<PLLDiv>,
}

/// A resolved clock configuration.
#[derive(Clone, Copy, PartialEq, Eq, Debug)]
pub struct Config {
    pub sys_mux: SysClockSrc,
    pub pll_cfg: PllConfig,
    pub ahb_psc: Prescaler,
    pub apb_psc: Prescaler,
}

/// The exact frequencies a candidate configuration produces at every tap.
#[derive(Clone, Copy, PartialEq, Eq, Structural, Debug)]
pub struct Frequencies {
    pub pllp: Rate,
    pub pllq: Rate,
    pub pllr: Rate,
    pub sysclk: Rate,
    pub hclk: Rate,
    pub pclk1: Rate,
    pub pclk2: Rate,
    pub usb_rng_clk: Rate,
}

/// A single soft frequency requirement: an optional target and optional
/// hard lower and upper bounds. Consistency of the three fields is the
/// caller's responsibility; candidates are only checked against them.
#[derive(Clone, Copy, PartialEq, Eq, Structural, Debug)]
pub struct FreqReq {
    pub freq: Option<Hertz>,
    pub min: Option<Hertz>,
    pub max: Option<Hertz>,
}

/// The caller's requirements for one resolution request.
#[derive(Clone, Copy, PartialEq, Eq, Structural, Debug)]
pub struct ClockRequirements {
    pub hse: Option<Hertz>,
    pub hse_bypass: bool,
    pub sysclk: Option<FreqReq>,
    pub hclk: Option<FreqReq>,
    pub pclk1: Option<FreqReq>,
    pub pclk2: Option<FreqReq>,
    pub usb_rng_clk: bool,
}

impl FreqReq {
    /// Require a target frequency with no hard bounds.
    pub fn new(freq: Hertz) -> (r: FreqReq)
        ensures
            r == (FreqReq { freq: Some(freq), min: None, max: None }),
    {
        FreqReq::from(freq)
    }

    /// Require a frequency exactly: target and both hard bounds.
    pub fn precise(freq: Hertz) -> (r: FreqReq)
        ensures
            r == (FreqReq { freq: Some(freq), min: Some(freq), max: Some(freq) }),
    {
        FreqReq { freq: Some(freq), min: Some(freq), max: Some(freq) }
    }

    /// Add a hard lower bound.
    pub fn min(self, min: Hertz) -> (r: FreqReq)
        ensures
            r == (FreqReq { min: Some(min), ..self }),
    {
        FreqReq { min: Some(min), ..self }
    }

    /// Add a hard upper bound.
    pub fn max(self, max: Hertz) -> (r: FreqReq)
        ensures
            r == (FreqReq { max: Some(max), ..self }),
    {
        FreqReq { max: Some(max), ..self }
    }
}

impl From<Hertz> for FreqReq {
    /// A plain frequency is a target with no hard bounds.
    fn from(freq: Hertz) -> (r: FreqReq) {
        FreqReq { freq: Some(freq), min: None, max: None }
    }
}

impl vstd::std_specs::convert::FromSpecImpl<Hertz> for FreqReq {
    open spec fn obeys_from_spec() -> bool {
        true
    }

    open spec fn from_spec(freq: Hertz) -> FreqReq {
        FreqReq { freq: Some(freq), min: None, max: None }
    }
}

/// A resolution failure.
#[derive(Clone, PartialEq, Eq, Debug)]
pub enum ClockError {
    /// The requirements are outside of the hardware capabilities.
    BadRequirements(String),
    /// No clock configuration fulfils the requirements.
    NoClockFound(String),
}

impl ClockError {
    /// A human-readable description of the failure.
    pub fn describe(&self) -> (s: String)
        ensures
            match self {
                ClockError::BadRequirements(r) => s@ ==
                    "requirements are outside of hardware capabilities: "@ + r@,
                ClockError::NoClockFound(r) => s@ ==
                    "requirements cannot be fulfilled: "@ + r@,
            },
    {
        match self {
            ClockError::BadRequirements(r) => {
                let mut s = "requirements are outside of hardware capabilities: ".to_owned();
                s.append(r.as_str());
                s
            },
            ClockError::NoClockFound(r) => {
                let mut s = "requirements cannot be fulfilled: ".to_owned();
                s.append(r.as_str());
                s
            },
        }
    }
}

} // verus!
