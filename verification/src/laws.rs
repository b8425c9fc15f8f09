use vstd::prelude::*;
use vstd::arithmetic::div_mod::{lemma_div_of0, lemma_fundamental_div_mod};
use crate::model::DEV_SCALE;
use crate::types::{ClockError, ClockRequirements, Config, Frequencies};
use crate::model::{
    cand_ok, cfg_of, dev_term, even_div, freqs_of, is_winner, lemma_winner_unique,
    osc_of, score_val, search_post, Cand, PLL_IN_MAX, PLL_IN_MIN, P_MAX, P_MIN, TAP_MAX,
    TAP_MIN, USB_BAND_MAX, USB_BAND_MIN, VCO_MAX, VCO_MIN,
};

verus! {

/// Extract the winning candidate of a successful search.
pub proof fn winner_of(rv: ClockRequirements, cfg: Config, freqs: Frequencies) -> (c: Cand)
    requires
        search_post(rv, Ok((cfg, freqs))),
    ensures
        is_winner(rv, osc_of(rv), c),
        cfg == cfg_of(rv, c),
        freqs == freqs_of(osc_of(rv), c),
{
    choose|c: Cand|
        is_winner(rv, osc_of(rv), c) && cfg == cfg_of(rv, c) && freqs == freqs_of(osc_of(rv), c)
}

/// Determinism: the search result is a function of the requirements
/// alone. Any two results that satisfy the search contract for the same
/// requirements agree: they fail together, and on success they carry
/// the same configuration and the same frequencies.
pub proof fn lemma_resolve_deterministic(
    rv: ClockRequirements,
    r1: Result<(Config, Frequencies), ClockError>,
    r2: Result<(Config, Frequencies), ClockError>,
)
    requires
        search_post(rv, r1),
        search_post(rv, r2),
    ensures
        (r1 is Ok) == (r2 is Ok),
        match (r1, r2) {
            (Ok(p1), Ok(p2)) => p1 == p2,
            _ => true,
        },
{
    let osc = osc_of(rv);
    match (r1, r2) {
        (Ok(p1), Ok(p2)) => {
            let c1 = winner_of(rv, p1.0, p1.1);
            let c2 = winner_of(rv, p2.0, p2.1);
            lemma_winner_unique(rv, osc, c1, c2);
            assert(p1.0 == p2.0 && p1.1 == p2.1);
            assert(p1 =~= p2);
        },
        (Ok(p1), Err(_)) => {
            let c1 = winner_of(rv, p1.0, p1.1);
            assert(cand_ok(rv, osc, c1));
        },
        (Err(_), Ok(p2)) => {
            let c2 = winner_of(rv, p2.0, p2.1);
            assert(cand_ok(rv, osc, c2));
        },
        (Err(_), Err(_)) => {},
    }
}

/// Precision clock: when a precise USB/RNG clock is demanded, the
/// auxiliary tap of every successful resolution lies within 1 kHz of
/// 48 MHz; a candidate outside that band is never returned.
pub proof fn lemma_precise_usb_clock(rv: ClockRequirements, cfg: Config, freqs: Frequencies)
    requires
        search_post(rv, Ok((cfg, freqs))),
        rv.usb_rng_clk,
    ensures
        USB_BAND_MIN * freqs.usb_rng_clk.den <= freqs.usb_rng_clk.num,
        freqs.usb_rng_clk.num <= USB_BAND_MAX * freqs.usb_rng_clk.den,
{
    let c = winner_of(rv, cfg, freqs);
    assert(cand_ok(rv, osc_of(rv), c));
}

/// Range containment: every successful resolution's PLL input, VCO and
/// P/Q/R outputs lie within their fixed legal ranges, stated exactly
/// over the returned rational tap frequencies and the returned dividers.
pub proof fn lemma_range_containment(rv: ClockRequirements, cfg: Config, freqs: Frequencies)
    requires
        search_post(rv, Ok((cfg, freqs))),
    ensures
        PLL_IN_MIN * cfg.pll_cfg.m <= osc_of(rv) <= PLL_IN_MAX * cfg.pll_cfg.m,
        VCO_MIN * cfg.pll_cfg.m <= osc_of(rv) * cfg.pll_cfg.n <= VCO_MAX * cfg.pll_cfg.m,
        P_MIN * freqs.pllp.den <= freqs.pllp.num <= P_MAX * freqs.pllp.den,
        TAP_MIN * freqs.pllq.den <= freqs.pllq.num <= TAP_MAX * freqs.pllq.den,
        TAP_MIN * freqs.pllr.den <= freqs.pllr.num <= TAP_MAX * freqs.pllr.den,
{
    let c = winner_of(rv, cfg, freqs);
    assert(cand_ok(rv, osc_of(rv), c));
}

/// Infeasibility: a system-clock `min` bound above everything a legal
/// path can reach — above the 170 MHz cap of the PLL `r` output and
/// above the oscillator itself — makes the search fail.
pub proof fn lemma_unreachable_min_is_infeasible(
    rv: ClockRequirements,
    r: Result<(Config, Frequencies), ClockError>,
)
    requires
        search_post(rv, r),
        rv.sysclk matches Some(rq) && rq.min matches Some(mn) && mn.0 > TAP_MAX
            && mn.0 as int > osc_of(rv),
    ensures
        r is Err,
{
    let osc = osc_of(rv);
    if let Ok(pair) = r {
        let c = winner_of(rv, pair.0, pair.1);
        assert(cand_ok(rv, osc, c));
        let mn = rv.sysclk->Some_0.min->Some_0;
        let sys = freqs_of(osc, c).sysclk;
        let sn = sys.num as int;
        let sd = sys.den as int;
        assert(sn >= mn.0 * sd);
        if c.mux == 0 {
            assert(sd == 1 && sn == osc);
            assert(mn.0 * 1 == mn.0) by (nonlinear_arith);
            assert(false);
        } else {
            let md = c.m * even_div(c.ri);
            assert(1 <= md <= 128) by (nonlinear_arith)
                requires
                    1 <= c.m <= 16,
                    2 <= even_div(c.ri) <= 8,
                    md == c.m * even_div(c.ri),
            ;
            assert(sn == osc * c.n && sd == md);
            assert(osc * c.n <= TAP_MAX * md);
            assert(mn.0 * md > TAP_MAX * md) by (nonlinear_arith)
                requires
                    mn.0 as int >= TAP_MAX + 1,
                    md >= 1,
            ;
            assert(false);
        }
    }
}

/// A score is never negative.
pub proof fn lemma_score_nonneg(rv: ClockRequirements, osc: int, c: Cand)
    ensures
        score_val(rv, osc, c) >= 0,
{
    let sys = freqs_of(osc, c).sysclk;
    let sn = sys.num as int;
    let sd = sys.den as int;
    assert forall|req: Option<crate::types::FreqReq>| #[trigger] dev_term(req, sn, sd) >= 0 by {
        match req {
            Some(rq) => match rq.freq {
                Some(t) => {
                    if t.0 != 0 {
                        let tb = t.0 * sd;
                        let d = if sn >= tb { sn - tb } else { tb - sn };
                        let q = (d * crate::model::DEV_SCALE) / tb;
                        assert(q * q >= 0) by (nonlinear_arith);
                    }
                },
                None => {},
            },
            None => {},
        }
    }
}

/// Default behavior: with no bus requirement given, the defaulting pass
/// demands a 48 MHz high-speed bus, and whenever any legal, feasible
/// candidate produces exactly 48 MHz, the resolved system clock — and so,
/// after its prescaler, the high-speed bus — deviates from 48 MHz by less
/// than one part in `DEV_SCALE`.
pub proof fn lemma_default_behavior(
    rv0: ClockRequirements,
    cfg: Config,
    freqs: Frequencies,
    cz: Cand,
)
    requires
        rv0.sysclk is None && rv0.hclk is None && rv0.pclk1 is None && rv0.pclk2 is None,
        search_post(crate::search::defaulted(rv0), Ok((cfg, freqs))),
        cand_ok(crate::search::defaulted(rv0), osc_of(rv0), cz),
        freqs_of(osc_of(rv0), cz).sysclk.num == 48_000_000 * freqs_of(osc_of(rv0), cz).sysclk.den,
    ensures
        abs_diff(freqs.sysclk.num as int, 48_000_000 * freqs.sysclk.den) * DEV_SCALE
            < 48_000_000 * freqs.sysclk.den,
{
    let rv = crate::search::defaulted(rv0);
    let osc = osc_of(rv0);
    assert(osc == osc_of(rv));
    let cw = winner_of(rv, cfg, freqs);

    // The exact candidate scores zero: its only term is the injected
    // 48 MHz target, hit exactly.
    let sz = freqs_of(osc, cz).sysclk;
    assert(dev_term(rv.hclk, sz.num as int, sz.den as int) == 0) by {
        lemma_div_of0(48_000_000 * sz.den as int);
    }
    assert(score_val(rv, osc, cz) == 0);
    lemma_zero_score_winner(rv, osc, cz, cw);

    // A zero winning score makes the winner's own 48 MHz term zero, and
    // a zero quantized deviation bounds the exact deviation.
    let sw = freqs_of(osc, cw).sysclk;
    let sn = sw.num as int;
    let sd = sw.den as int;
    let tb = 48_000_000 * sd;
    let d = abs_diff(sn, tb);
    lemma_score_nonneg_terms(rv, osc, cw);
    assert(dev_term(rv.hclk, sn, sd) == 0);
    let q = (d * DEV_SCALE) / tb;
    assert(q * q == 0);
    assert(q == 0) by (nonlinear_arith)
        requires
            q * q == 0,
    ;
    lemma_fundamental_div_mod(d * DEV_SCALE, tb);
    assert(d * DEV_SCALE < tb);
    assert(freqs.sysclk == sw);
}

/// The absolute difference.
pub open spec fn abs_diff(a: int, b: int) -> int {
    if a >= b { a - b } else { b - a }
}

/// Each deviation term of a score is nonnegative, and a zero score has
/// only zero terms.
proof fn lemma_score_nonneg_terms(rv: ClockRequirements, osc: int, c: Cand)
    ensures
        dev_term(rv.sysclk, freqs_of(osc, c).sysclk.num as int, freqs_of(osc, c).sysclk.den as int)
            >= 0,
        dev_term(rv.hclk, freqs_of(osc, c).sysclk.num as int, freqs_of(osc, c).sysclk.den as int)
            >= 0,
        dev_term(rv.pclk1, freqs_of(osc, c).sysclk.num as int, freqs_of(osc, c).sysclk.den as int)
            >= 0,
        dev_term(rv.pclk2, freqs_of(osc, c).sysclk.num as int, freqs_of(osc, c).sysclk.den as int)
            >= 0,
        score_val(rv, osc, c) == 0 ==> dev_term(
            rv.hclk,
            freqs_of(osc, c).sysclk.num as int,
            freqs_of(osc, c).sysclk.den as int,
        ) == 0,
{
    let sys = freqs_of(osc, c).sysclk;
    let sn = sys.num as int;
    let sd = sys.den as int;
    assert forall|req: Option<crate::types::FreqReq>| #[trigger] dev_term(req, sn, sd) >= 0 by {
        match req {
            Some(rq) => match rq.freq {
                Some(t) => {
                    if t.0 != 0 {
                        let tb = t.0 * sd;
                        let d = if sn >= tb { sn - tb } else { tb - sn };
                        let q = (d * crate::model::DEV_SCALE) / tb;
                        assert(q * q >= 0) by (nonlinear_arith);
                    }
                },
                None => {},
            },
            None => {},
        }
    }
}

/// Default behavior, scoring side: when any legal, feasible candidate
/// scores zero — as one does whenever every present target is hit
/// exactly — the returned winner also scores zero.
pub proof fn lemma_zero_score_winner(rv: ClockRequirements, osc: int, cz: Cand, cw: Cand)
    requires
        cand_ok(rv, osc, cz),
        score_val(rv, osc, cz) == 0,
        is_winner(rv, osc, cw),
    ensures
        score_val(rv, osc, cw) == 0,
{
    lemma_score_nonneg(rv, osc, cw);
    assert(cand_ok(rv, osc, cz));
}

} // verus!
