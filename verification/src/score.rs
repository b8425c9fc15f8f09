use vstd::prelude::*;
use vstd::arithmetic::div_mod::{
    lemma_div_is_ordered, lemma_div_multiples_vanish, lemma_div_nonincreasing,
};
use crate::rate::Rate;
use crate::types::{ClockError, ClockRequirements, Config, FreqReq, Frequencies};
use crate::model::{
    bounds_ok, dev_term, error_val, feasible, sat_add, DEV_SCALE, SCORE_CAP,
    USB_BAND_MAX, USB_BAND_MIN,
};

verus! {

/// Largest numerator a system-clock or auxiliary-clock tap can have:
/// the VCO cap times the largest PLL input divider.
pub const MAX_TAP_NUM: u64 = 5_504_000_000;

/// Largest denominator of such a tap: the largest PLL input divider
/// times the largest PLL output divider.
pub const MAX_TAP_DEN: u64 = 128;

/// The bounds under which the scorer's arithmetic cannot overflow.
pub open spec fn rate_bounded(s: Rate) -> bool {
    &&& 1 <= s.den <= MAX_TAP_DEN
    &&& s.num <= MAX_TAP_NUM
}

/// Outcome of checking one requirement against one tap frequency.
enum ReqCheck {
    TooLow,
    TooHigh,
    Fine(u128),
}

/// Check one requirement's hard bounds against the exact frequency `s`
/// and compute its soft deviation term.
fn req_check(req: &Option<FreqReq>, s: Rate) -> (r: ReqCheck)
    requires
        rate_bounded(s),
    ensures
        (r is Fine) == bounds_ok(*req, s.num as int, s.den as int),
        r matches ReqCheck::Fine(v) ==> v as int == dev_term(*req, s.num as int, s.den as int)
            && v <= SCORE_CAP,
{
    match req {
        None => ReqCheck::Fine(0),
        Some(rq) => {
            let sn = s.num as u128;
            let sd = s.den as u128;
            proof {
                assert(forall|h: int| 0 <= h <= 0xffff_ffff ==> #[trigger] (h * sd as int)
                    <= 0xffff_ffff * 128) by (nonlinear_arith)
                    requires
                        1 <= sd as int <= 128,
                ;
            }
            if let Some(mn) = rq.min {
                if sn < (mn.0 as u128) * sd {
                    return ReqCheck::TooLow;
                }
            }
            if let Some(mx) = rq.max {
                if sn > (mx.0 as u128) * sd {
                    return ReqCheck::TooHigh;
                }
            }
            match rq.freq {
                None => ReqCheck::Fine(0),
                Some(t) => {
                    if t.0 == 0 {
                        ReqCheck::Fine(SCORE_CAP)
                    } else {
                        proof {
                            assert(t.0 as int * sd as int >= 1 && t.0 as int * sd as int
                                <= 0xffff_ffff * 128) by (nonlinear_arith)
                                requires
                                    1 <= t.0 as int <= 0xffff_ffff,
                                    1 <= sd as int <= 128,
                            ;
                        }
                        let tb = (t.0 as u128) * sd;
                        let d = if sn >= tb { sn - tb } else { tb - sn };
                        proof {
                            assert(d as int * DEV_SCALE as int
                                <= 549_755_813_760 * 1_000_000_000) by (nonlinear_arith)
                                requires
                                    0 <= d as int <= 549_755_813_760,
                                    DEV_SCALE == 1_000_000_000,
                            ;
                        }
                        let q = d * (DEV_SCALE as u128) / tb;
                        proof {
                            let di = d as int;
                            let tbi = tb as int;
                            let sc = DEV_SCALE as int;
                            if sn >= tb {
                                // d <= sn <= MAX_TAP_NUM, and dividing by tb >= 1
                                // cannot increase d * DEV_SCALE.
                                lemma_div_nonincreasing(di * sc, tbi);
                                assert(di * sc <= MAX_TAP_NUM * DEV_SCALE) by (nonlinear_arith)
                                    requires
                                        0 <= di <= MAX_TAP_NUM,
                                        sc == DEV_SCALE,
                                ;
                            } else {
                                // d <= tb, so the quotient is at most DEV_SCALE.
                                assert(di * sc <= tbi * sc) by (nonlinear_arith)
                                    requires
                                        0 <= di <= tbi,
                                        sc > 0,
                                ;
                                lemma_div_is_ordered(di * sc, tbi * sc, tbi);
                                lemma_div_multiples_vanish(sc, tbi);
                            }
                            assert(q as int * q as int <= SCORE_CAP) by (nonlinear_arith)
                                requires
                                    0 <= q as int <= MAX_TAP_NUM * DEV_SCALE,
                                    SCORE_CAP == 0x8000_0000_0000_0000_0000_0000_0000_0000,
                                    MAX_TAP_NUM == 5_504_000_000,
                                    DEV_SCALE == 1_000_000_000,
                            ;
                        }
                        ReqCheck::Fine(q * q)
                    }
                },
            }
        },
    }
}

/// Saturating score addition, capped at `SCORE_CAP`.
fn sat_add_exec(a: u128, b: u128) -> (r: u128)
    requires
        a <= SCORE_CAP,
        b <= SCORE_CAP,
    ensures
        r as int == sat_add(a as int, b as int),
        r <= SCORE_CAP,
{
    if b >= SCORE_CAP {
        SCORE_CAP
    } else if a >= SCORE_CAP - b {
        SCORE_CAP
    } else {
        a + b
    }
}

impl ClockRequirements {
    /// Score one candidate configuration.
    ///
    /// Hard checks first: when a precise USB/RNG clock is demanded, the
    /// auxiliary tap must land within 1 kHz of 48 MHz; each present
    /// `min`/`max` bound must hold. A violating candidate is rejected
    /// outright. The returned score is the saturating sum of the squared
    /// relative deviations from the present targets; zero soft targets
    /// give score zero.
    ///
    /// All four bus requirements are checked against the system clock
    /// tap — a deliberate, documented coupling of the bus requirements
    /// to the undivided system clock.
    pub(crate) fn calculate_error(&self, _config: &Config, freqs: &Frequencies) -> (r: Result<
        u128,
        ClockError,
    >)
        requires
            rate_bounded(freqs.sysclk),
            rate_bounded(freqs.usb_rng_clk),
        ensures
            (r is Ok) == feasible(*self, freqs.sysclk, freqs.usb_rng_clk),
            r matches Ok(v) ==> v as int == error_val(*self, freqs.sysclk) && v <= SCORE_CAP,
            r matches Err(e) ==> e is NoClockFound,
    {
        if self.usb_rng_clk {
            let un = freqs.usb_rng_clk.num as u128;
            let ud = freqs.usb_rng_clk.den as u128;
            if un < (USB_BAND_MIN as u128) * ud {
                return Err(ClockError::NoClockFound("USB/RNG clock too low".to_owned()));
            }
            if un > (USB_BAND_MAX as u128) * ud {
                return Err(ClockError::NoClockFound("USB/RNG clock too high".to_owned()));
            }
        }
        let mut error: u128 = 0;
        match req_check(&self.sysclk, freqs.sysclk) {
            ReqCheck::TooLow => {
                return Err(ClockError::NoClockFound("sysclk too low".to_owned()));
            },
            ReqCheck::TooHigh => {
                return Err(ClockError::NoClockFound("sysclk too high".to_owned()));
            },
            ReqCheck::Fine(v) => {
                error = sat_add_exec(error, v);
            },
        }
        match req_check(&self.hclk, freqs.sysclk) {
            ReqCheck::TooLow => {
                return Err(ClockError::NoClockFound("hclk too low".to_owned()));
            },
            ReqCheck::TooHigh => {
                return Err(ClockError::NoClockFound("hclk too high".to_owned()));
            },
            ReqCheck::Fine(v) => {
                error = sat_add_exec(error, v);
            },
        }
        match req_check(&self.pclk1, freqs.sysclk) {
            ReqCheck::TooLow => {
                return Err(ClockError::NoClockFound("pclk1 too low".to_owned()));
            },
            ReqCheck::TooHigh => {
                return Err(ClockError::NoClockFound("pclk1 too high".to_owned()));
            },
            ReqCheck::Fine(v) => {
                error = sat_add_exec(error, v);
            },
        }
        match req_check(&self.pclk2, freqs.sysclk) {
            ReqCheck::TooLow => {
                return Err(ClockError::NoClockFound("pclk2 too low".to_owned()));
            },
            ReqCheck::TooHigh => {
                return Err(ClockError::NoClockFound("pclk2 too high".to_owned()));
            },
            ReqCheck::Fine(v) => {
                error = sat_add_exec(error, v);
            },
        }
        Ok(error)
    }
}

} // verus!
