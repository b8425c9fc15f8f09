use vstd::prelude::*;
use crate::rate::Rate;
use crate::types::{
    ClockRequirements, Config, FreqReq, Frequencies, PLLSrc, PllConfig, Prescaler, SysClockSrc,
};

verus! {

// Fixed physical ranges of the clock tree, in hertz.
pub const PLL_IN_MIN: u64 = 2_660_000;
pub const PLL_IN_MAX: u64 = 16_000_000;
pub const VCO_MIN: u64 = 96_000_000;
pub const VCO_MAX: u64 = 344_000_000;
pub const P_MIN: u64 = 2_064_500;
pub const P_MAX: u64 = 170_000_000;
pub const TAP_MIN: u64 = 8_000_000;
pub const TAP_MAX: u64 = 170_000_000;

// The auxiliary USB/RNG clock must land within 1 kHz of 48 MHz.
pub const USB_BAND_MIN: u64 = 47_999_000;
pub const USB_BAND_MAX: u64 = 48_001_000;

/// The internal oscillator frequency.
pub const HSI_FREQ: u64 = 16_000_000;

/// Relative deviations from a target are quantized to multiples of
/// `1 / DEV_SCALE` before being squared and summed into the score.
pub const DEV_SCALE: u64 = 1_000_000_000;

/// Scores saturate at this cap; a target of zero hertz contributes the
/// whole cap, so such a requirement makes all candidates tie.
pub const SCORE_CAP: u128 = 0x8000_0000_0000_0000_0000_0000_0000_0000;

/// One point of the search space: the PLL input divider `m`, the
/// multiplier `n`, the `p` output divider, the indices `ri`/`qi` into the
/// even divider table for the `r` and `q` outputs, the system clock mux
/// choice (0 = oscillator, 1 = PLL `r` output) and the indices `ai`/`bi`
/// into the two prescaler tables.
pub ghost struct Cand {
    pub m: int,
    pub n: int,
    pub p: int,
    pub ri: int,
    pub qi: int,
    pub mux: int,
    pub ai: int,
    pub bi: int,
}

/// The even divider table for the PLL `r` and `q` outputs: 2, 4, 6, 8.
pub open spec fn even_div(i: int) -> int {
    2 + 2 * i
}

/// High-speed bus prescaler divisor table.
pub open spec fn ahb_div(i: int) -> int {
    if i == 0 { 1 }
    else if i == 1 { 2 }
    else if i == 2 { 4 }
    else if i == 3 { 8 }
    else if i == 4 { 16 }
    else if i == 5 { 32 }
    else if i == 6 { 64 }
    else if i == 7 { 128 }
    else if i == 8 { 256 }
    else { 512 }
}

/// Low-speed bus prescaler divisor table.
pub open spec fn apb_div(i: int) -> int {
    if i == 0 { 1 }
    else if i == 1 { 2 }
    else if i == 2 { 4 }
    else if i == 3 { 8 }
    else { 16 }
}

pub open spec fn ahb_prescaler(i: int) -> Prescaler {
    if i == 0 { Prescaler::NotDivided }
    else if i == 1 { Prescaler::Div2 }
    else if i == 2 { Prescaler::Div4 }
    else if i == 3 { Prescaler::Div8 }
    else if i == 4 { Prescaler::Div16 }
    else if i == 5 { Prescaler::Div32 }
    else if i == 6 { Prescaler::Div64 }
    else if i == 7 { Prescaler::Div128 }
    else if i == 8 { Prescaler::Div256 }
    else { Prescaler::Div512 }
}

pub open spec fn apb_prescaler(i: int) -> Prescaler {
    if i == 0 { Prescaler::NotDivided }
    else if i == 1 { Prescaler::Div2 }
    else if i == 2 { Prescaler::Div4 }
    else if i == 3 { Prescaler::Div8 }
    else { Prescaler::Div16 }
}

/// The oscillator frequency the PLL and the direct mux path are fed with:
/// the external oscillator if one was given, else the internal one.
pub open spec fn osc_of(rv: ClockRequirements) -> int {
    match rv.hse {
        Some(h) => h.0 as int,
        None => HSI_FREQ as int,
    }
}

pub open spec fn cand_in_space(c: Cand) -> bool {
    &&& 1 <= c.m <= 16
    &&& 8 <= c.n <= 127
    &&& 2 <= c.p <= 31
    &&& 0 <= c.ri < 4
    &&& 0 <= c.qi < 4
    &&& 0 <= c.mux < 2
    &&& 0 <= c.ai < 10
    &&& 0 <= c.bi < 5
}

/// The PLL input `osc / m` lies in its legal range.
pub open spec fn pll_in_ok(osc: int, m: int) -> bool {
    PLL_IN_MIN * m <= osc && osc <= PLL_IN_MAX * m
}

/// The VCO output `osc * n / m` lies in its legal range.
pub open spec fn vco_ok(osc: int, m: int, n: int) -> bool {
    VCO_MIN * m <= osc * n && osc * n <= VCO_MAX * m
}

/// The `p` output `osc * n / (m * p)` lies in its legal range.
pub open spec fn p_ok(osc: int, m: int, n: int, p: int) -> bool {
    P_MIN * (m * p) <= osc * n && osc * n <= P_MAX * (m * p)
}

/// An `r` or `q` output `osc * n / (m * d)` lies in its legal range.
pub open spec fn tap_ok(osc: int, m: int, n: int, d: int) -> bool {
    TAP_MIN * (m * d) <= osc * n && osc * n <= TAP_MAX * (m * d)
}

/// A candidate is legal: inside the search space and not pruned by any
/// of the fixed physical ranges.
pub open spec fn cand_legal(osc: int, c: Cand) -> bool {
    &&& cand_in_space(c)
    &&& pll_in_ok(osc, c.m)
    &&& vco_ok(osc, c.m, c.n)
    &&& p_ok(osc, c.m, c.n, c.p)
    &&& tap_ok(osc, c.m, c.n, even_div(c.ri))
    &&& tap_ok(osc, c.m, c.n, even_div(c.qi))
}

/// Numerator of the exact system clock frequency of a candidate.
pub open spec fn sys_num(osc: int, c: Cand) -> int {
    if c.mux == 0 { osc } else { osc * c.n }
}

/// Denominator of the exact system clock frequency of a candidate.
pub open spec fn sys_den(c: Cand) -> int {
    if c.mux == 0 { 1 } else { c.m * even_div(c.ri) }
}

/// The exact frequencies a candidate produces at every tap.
pub open spec fn freqs_of(osc: int, c: Cand) -> Frequencies {
    let vco_num = osc * c.n;
    let sn = sys_num(osc, c);
    let sd = sys_den(c);
    Frequencies {
        pllp: Rate { num: vco_num as u64, den: (c.m * c.p) as u64 },
        pllq: Rate { num: vco_num as u64, den: (c.m * even_div(c.qi)) as u64 },
        pllr: Rate { num: vco_num as u64, den: (c.m * even_div(c.ri)) as u64 },
        sysclk: Rate { num: sn as u64, den: sd as u64 },
        hclk: Rate { num: sn as u64, den: (sd * ahb_div(c.ai)) as u64 },
        pclk1: Rate { num: sn as u64, den: (sd * ahb_div(c.ai) * apb_div(c.bi)) as u64 },
        pclk2: Rate { num: sn as u64, den: (sd * ahb_div(c.ai) * apb_div(c.bi)) as u64 },
        usb_rng_clk: Rate { num: vco_num as u64, den: (c.m * even_div(c.qi)) as u64 },
    }
}

/// The PLL input mux implied by the requirements.
pub open spec fn pll_src_of(rv: ClockRequirements) -> PLLSrc {
    match rv.hse {
        Some(h) => if rv.hse_bypass { PLLSrc::HSEBypass(h) } else { PLLSrc::HSE(h) },
        None => PLLSrc::HSI,
    }
}

/// The system clock mux implied by a candidate.
pub open spec fn sys_mux_of(rv: ClockRequirements, c: Cand) -> SysClockSrc {
    if c.mux == 0 {
        match rv.hse {
            Some(h) => SysClockSrc::HSE(h),
            None => SysClockSrc::HSI,
        }
    } else {
        SysClockSrc::PLL
    }
}

/// The configuration a candidate denotes.
pub open spec fn cfg_of(rv: ClockRequirements, c: Cand) -> Config {
    Config {
        sys_mux: sys_mux_of(rv, c),
        pll_cfg: PllConfig {
            mux: pll_src_of(rv),
            m: c.m as u8,
            n: c.n as u8,
            r: even_div(c.ri) as u8,
            q: Some(even_div(c.qi) as u8),
            p: Some(c.p as u8),
        },
        ahb_psc: ahb_prescaler(c.ai),
        apb_psc: apb_prescaler(c.bi),
    }
}

// ---------------------------------------------------------------------
// Scoring.
//
// The auxiliary USB/RNG clock demand and the per-bus `min`/`max` bounds
// are hard checks: a violating candidate is rejected outright. Each
// present `target` contributes the square of the relative deviation of
// the achieved frequency, quantized to multiples of `1 / DEV_SCALE`.
//
// All four bus requirements are checked against the system clock tap;
// the two low-speed buses also always share one divisor. This coupling
// is a documented design deviation from the per-bus hardware semantics
// and is kept deliberately.
// ---------------------------------------------------------------------

/// Hard check of one requirement's `min`/`max` bounds against the exact
/// frequency `sn / sd`.
pub open spec fn bounds_ok(req: Option<FreqReq>, sn: int, sd: int) -> bool {
    match req {
        None => true,
        Some(rq) => {
            &&& match rq.min {
                Some(mn) => sn >= mn.0 * sd,
                None => true,
            }
            &&& match rq.max {
                Some(mx) => sn <= mx.0 * sd,
                None => true,
            }
        },
    }
}

/// Soft deviation of the exact frequency `sn / sd` from one requirement's
/// target: the square of the relative deviation, quantized to multiples
/// of `1 / DEV_SCALE`. A target of zero hertz contributes the whole cap.
pub open spec fn dev_term(req: Option<FreqReq>, sn: int, sd: int) -> int {
    match req {
        None => 0,
        Some(rq) => match rq.freq {
            None => 0,
            Some(t) => if t.0 == 0 {
                SCORE_CAP as int
            } else {
                let tb = t.0 * sd;
                let d = if sn >= tb { sn - tb } else { tb - sn };
                let q = (d * DEV_SCALE) / tb;
                q * q
            },
        },
    }
}

/// Saturating score addition.
pub open spec fn sat_add(a: int, b: int) -> int {
    if a + b >= SCORE_CAP { SCORE_CAP as int } else { a + b }
}

/// Whether the auxiliary USB/RNG clock demand is met by the exact
/// auxiliary frequency `usb`.
pub open spec fn usb_ok(rv: ClockRequirements, usb: Rate) -> bool {
    rv.usb_rng_clk ==> {
        &&& USB_BAND_MIN * usb.den <= usb.num
        &&& usb.num <= USB_BAND_MAX * usb.den
    }
}

/// Whether a candidate with system clock `sys` and auxiliary clock `usb`
/// passes every hard check.
pub open spec fn feasible(rv: ClockRequirements, sys: Rate, usb: Rate) -> bool {
    &&& usb_ok(rv, usb)
    &&& bounds_ok(rv.sysclk, sys.num as int, sys.den as int)
    &&& bounds_ok(rv.hclk, sys.num as int, sys.den as int)
    &&& bounds_ok(rv.pclk1, sys.num as int, sys.den as int)
    &&& bounds_ok(rv.pclk2, sys.num as int, sys.den as int)
}

/// The score of a feasible candidate: the saturating sum of the four
/// soft deviation terms. Lower is better.
pub open spec fn error_val(rv: ClockRequirements, sys: Rate) -> int {
    let sn = sys.num as int;
    let sd = sys.den as int;
    sat_add(
        sat_add(
            sat_add(dev_term(rv.sysclk, sn, sd), dev_term(rv.hclk, sn, sd)),
            dev_term(rv.pclk1, sn, sd),
        ),
        dev_term(rv.pclk2, sn, sd),
    )
}

/// A candidate passes every hard check.
pub open spec fn cand_feasible(rv: ClockRequirements, osc: int, c: Cand) -> bool {
    feasible(rv, freqs_of(osc, c).sysclk, freqs_of(osc, c).usb_rng_clk)
}

/// A candidate is legal and passes every hard check.
pub open spec fn cand_ok(rv: ClockRequirements, osc: int, c: Cand) -> bool {
    cand_legal(osc, c) && cand_feasible(rv, osc, c)
}

/// The score of a candidate.
pub open spec fn score_val(rv: ClockRequirements, osc: int, c: Cand) -> int {
    error_val(rv, freqs_of(osc, c).sysclk)
}

// ---------------------------------------------------------------------
// The enumeration order and the best-candidate fold.
// ---------------------------------------------------------------------

/// The strict lexicographic enumeration order of the search.
pub open spec fn lex_lt(a: Cand, b: Cand) -> bool {
    ||| a.m < b.m
    ||| (a.m == b.m && a.n < b.n)
    ||| (a.m == b.m && a.n == b.n && a.p < b.p)
    ||| (a.m == b.m && a.n == b.n && a.p == b.p && a.ri < b.ri)
    ||| (a.m == b.m && a.n == b.n && a.p == b.p && a.ri == b.ri && a.qi < b.qi)
    ||| (a.m == b.m && a.n == b.n && a.p == b.p && a.ri == b.ri && a.qi == b.qi
        && a.mux < b.mux)
    ||| (a.m == b.m && a.n == b.n && a.p == b.p && a.ri == b.ri && a.qi == b.qi
        && a.mux == b.mux && a.ai < b.ai)
    ||| (a.m == b.m && a.n == b.n && a.p == b.p && a.ri == b.ri && a.qi == b.qi
        && a.mux == b.mux && a.ai == b.ai && a.bi < b.bi)
}

/// The best candidate seen so far, together with everything it denotes.
#[derive(Clone, Copy)]
pub struct BestState {
    pub cfg: Config,
    pub freqs: Frequencies,
    pub err: u128,
    pub cand: Ghost<Cand>,
}

/// The retained best entry is consistent: it records a legal, feasible
/// candidate together with that candidate's configuration, frequencies
/// and score.
pub open spec fn matches_best(rv: ClockRequirements, osc: int, b: BestState) -> bool {
    &&& cand_ok(rv, osc, b.cand@)
    &&& b.err as int == score_val(rv, osc, b.cand@)
    &&& b.cfg == cfg_of(rv, b.cand@)
    &&& b.freqs == freqs_of(osc, b.cand@)
}

/// `r` is the result of folding the candidates of the subspace `s`, in
/// enumeration order, into the running best `prev`, keeping the current
/// best on ties (strict improvement).
pub open spec fn fold_ok(
    rv: ClockRequirements,
    osc: int,
    s: spec_fn(Cand) -> bool,
    prev: Option<BestState>,
    r: Option<BestState>,
) -> bool {
    match r {
        None => {
            &&& prev is None
            &&& forall|c: Cand| #[trigger] s(c) ==> !cand_ok(rv, osc, c)
        },
        Some(b) => {
            &&& matches_best(rv, osc, b)
            &&& forall|c: Cand| #[trigger] s(c) && cand_ok(rv, osc, c) ==> {
                &&& score_val(rv, osc, c) >= b.err as int
                &&& (lex_lt(c, b.cand@) ==> score_val(rv, osc, c) > b.err as int)
            }
            &&& match prev {
                None => s(b.cand@),
                Some(b0) => (r == prev) || (s(b.cand@) && (b.err as int) < b0.err as int),
            }
        },
    }
}

/// Folding an empty or fully infeasible subspace changes nothing.
pub proof fn lemma_fold_stall(
    rv: ClockRequirements,
    osc: int,
    s: spec_fn(Cand) -> bool,
    prev: Option<BestState>,
)
    requires
        forall|c: Cand| #[trigger] s(c) ==> !cand_ok(rv, osc, c),
        prev matches Some(b) ==> matches_best(rv, osc, b),
    ensures
        fold_ok(rv, osc, s, prev, prev),
{
}

/// Folding a subspace `s1` and then a later subspace `s2` is folding
/// their union, when every candidate of `s1` precedes every candidate
/// of `s2` in enumeration order.
pub proof fn lemma_fold_compose(
    rv: ClockRequirements,
    osc: int,
    s1: spec_fn(Cand) -> bool,
    s2: spec_fn(Cand) -> bool,
    s3: spec_fn(Cand) -> bool,
    prev: Option<BestState>,
    mid: Option<BestState>,
    r: Option<BestState>,
)
    requires
        fold_ok(rv, osc, s1, prev, mid),
        fold_ok(rv, osc, s2, mid, r),
        forall|c: Cand| #[trigger] s3(c) <==> s1(c) || s2(c),
        forall|c1: Cand, c2: Cand| #[trigger] s1(c1) && #[trigger] s2(c2) ==> lex_lt(c1, c2),
    ensures
        fold_ok(rv, osc, s3, prev, r),
{
    match r {
        None => {
            assert(mid is None);
            assert(prev is None);
            assert(forall|c: Cand| #[trigger] s3(c) ==> !cand_ok(rv, osc, c));
        },
        Some(b) => {
            assert forall|c: Cand| #[trigger] s3(c) && cand_ok(rv, osc, c) implies {
                &&& score_val(rv, osc, c) >= b.err as int
                &&& (lex_lt(c, b.cand@) ==> score_val(rv, osc, c) > b.err as int)
            } by {
                if s2(c) {
                } else {
                    assert(s1(c));
                    match mid {
                        None => {
                            assert(!cand_ok(rv, osc, c));
                        },
                        Some(b0) => {
                            assert(score_val(rv, osc, c) >= b0.err as int);
                            if Some(b0) == r {
                            } else {
                                assert(s2(b.cand@) && (b.err as int) < b0.err as int);
                            }
                        },
                    }
                }
            }
            match prev {
                None => {
                    match mid {
                        None => {
                            assert(s2(b.cand@));
                        },
                        Some(b0) => {
                            if Some(b0) == r {
                                assert(s1(b.cand@));
                            } else {
                                assert(s2(b.cand@));
                            }
                        },
                    }
                },
                Some(b0) => {
                    let bm = mid->Some_0;
                    if mid == prev {
                        if r == mid {
                        } else {
                            assert(s2(b.cand@) && (b.err as int) < b0.err as int);
                        }
                    } else {
                        assert(s1(bm.cand@) && (bm.err as int) < b0.err as int);
                        if r == mid {
                            assert(s3(b.cand@));
                            assert((b.err as int) < b0.err as int);
                        } else {
                            assert(s2(b.cand@));
                            assert((b.err as int) < bm.err as int);
                        }
                    }
                },
            }
        },
    }
}

// Named subspaces of the search. `pfxN` pins the first `N` enumeration
// dimensions; `spaceN` is the same subspace as a value; `partN` is the
// part of a `pfx(N-1)` subspace already processed by the level-`N` loop.
// The three innermost dimensions (mux, ahb index, apb index) are walked
// as one flattened index `50 * mux + 5 * ai + bi`.

pub open spec fn pfx1(c: Cand, m: int) -> bool {
    c.m == m
}

pub open spec fn pfx2(c: Cand, m: int, n: int) -> bool {
    pfx1(c, m) && c.n == n
}

pub open spec fn pfx3(c: Cand, m: int, n: int, p: int) -> bool {
    pfx2(c, m, n) && c.p == p
}

pub open spec fn pfx4(c: Cand, m: int, n: int, p: int, ri: int) -> bool {
    pfx3(c, m, n, p) && c.ri == ri
}

pub open spec fn pfx5(c: Cand, m: int, n: int, p: int, ri: int, qi: int) -> bool {
    pfx4(c, m, n, p, ri) && c.qi == qi
}

/// The flattened index of the three innermost dimensions.
pub open spec fn lin(c: Cand) -> int {
    50 * c.mux + 5 * c.ai + c.bi
}

/// The three innermost dimensions lie in their ranges; on this set the
/// flattened index is in bijection with (mux, ai, bi) and respects the
/// enumeration order.
pub open spec fn tail_in_range(c: Cand) -> bool {
    0 <= c.mux < 2 && 0 <= c.ai < 10 && 0 <= c.bi < 5
}

pub open spec fn space_all() -> spec_fn(Cand) -> bool {
    |c: Cand| true
}

pub open spec fn space1(m: int) -> spec_fn(Cand) -> bool {
    |c: Cand| pfx1(c, m)
}

pub open spec fn space2(m: int, n: int) -> spec_fn(Cand) -> bool {
    |c: Cand| pfx2(c, m, n)
}

pub open spec fn space3(m: int, n: int, p: int) -> spec_fn(Cand) -> bool {
    |c: Cand| pfx3(c, m, n, p)
}

pub open spec fn space4(m: int, n: int, p: int, ri: int) -> spec_fn(Cand) -> bool {
    |c: Cand| pfx4(c, m, n, p, ri)
}

pub open spec fn space5(m: int, n: int, p: int, ri: int, qi: int) -> spec_fn(Cand) -> bool {
    |c: Cand| pfx5(c, m, n, p, ri, qi)
}

pub open spec fn space6(m: int, n: int, p: int, ri: int, qi: int, k: int) -> spec_fn(
    Cand,
) -> bool {
    |c: Cand| pfx5(c, m, n, p, ri, qi) && tail_in_range(c) && lin(c) == k
}

pub open spec fn part1(k: int) -> spec_fn(Cand) -> bool {
    |c: Cand| c.m < k
}

pub open spec fn part2(m: int, k: int) -> spec_fn(Cand) -> bool {
    |c: Cand| pfx1(c, m) && c.n < k
}

pub open spec fn part3(m: int, n: int, k: int) -> spec_fn(Cand) -> bool {
    |c: Cand| pfx2(c, m, n) && c.p < k
}

pub open spec fn part4(m: int, n: int, p: int, k: int) -> spec_fn(Cand) -> bool {
    |c: Cand| pfx3(c, m, n, p) && c.ri < k
}

pub open spec fn part5(m: int, n: int, p: int, ri: int, k: int) -> spec_fn(Cand) -> bool {
    |c: Cand| pfx4(c, m, n, p, ri) && c.qi < k
}

pub open spec fn part6(m: int, n: int, p: int, ri: int, qi: int, k: int) -> spec_fn(
    Cand,
) -> bool {
    |c: Cand| pfx5(c, m, n, p, ri, qi) && tail_in_range(c) && lin(c) < k
}

/// The prefix dimensions fixed by the loops around one search level,
/// together with every range fact the pruning of the outer levels has
/// already established.
pub open spec fn prefix_ok(osc: int, m: int, n: int, p: int, ri: int, qi: int) -> bool {
    &&& 1 <= m <= 16
    &&& 8 <= n <= 127
    &&& 2 <= p <= 31
    &&& 0 <= ri < 4
    &&& 0 <= qi < 4
    &&& pll_in_ok(osc, m)
    &&& vco_ok(osc, m, n)
    &&& p_ok(osc, m, n, p)
    &&& tap_ok(osc, m, n, even_div(ri))
    &&& tap_ok(osc, m, n, even_div(qi))
}

/// The first candidate, in enumeration order, among those of minimal
/// score; a successful search returns exactly this candidate.
pub open spec fn is_winner(rv: ClockRequirements, osc: int, c: Cand) -> bool {
    &&& cand_ok(rv, osc, c)
    &&& forall|c2: Cand| #[trigger] cand_ok(rv, osc, c2) ==> {
        &&& score_val(rv, osc, c2) >= score_val(rv, osc, c)
        &&& (lex_lt(c2, c) ==> score_val(rv, osc, c2) > score_val(rv, osc, c))
    }
}

/// What a search over the whole space promises: on success, the returned
/// configuration and frequencies belong to the winning candidate; on
/// failure, no legal candidate passes the hard checks.
pub open spec fn search_post(
    rv: ClockRequirements,
    r: Result<(Config, Frequencies), crate::types::ClockError>,
) -> bool {
    let osc = osc_of(rv);
    match r {
        Ok(pair) => exists|c: Cand|
            #[trigger] is_winner(rv, osc, c) && pair.0 == cfg_of(rv, c) && pair.1 == freqs_of(
                osc,
                c,
            ),
        Err(e) => {
            &&& forall|c: Cand| !#[trigger] cand_ok(rv, osc, c)
            &&& e is NoClockFound
        },
    }
}

/// Determinism of the search: the winning candidate is unique, so equal
/// requirements always resolve to the same configuration and the same
/// frequencies.
pub proof fn lemma_winner_unique(rv: ClockRequirements, osc: int, c1: Cand, c2: Cand)
    requires
        is_winner(rv, osc, c1),
        is_winner(rv, osc, c2),
    ensures
        c1 == c2,
{
    if c1 != c2 {
        assert(lex_lt(c1, c2) || lex_lt(c2, c1));
        assert(cand_ok(rv, osc, c1));
        assert(cand_ok(rv, osc, c2));
        assert(false);
    }
}

/// Widening a folded subspace by candidates that are not feasible anyway
/// preserves the fold.
pub proof fn lemma_fold_widen(
    rv: ClockRequirements,
    osc: int,
    s: spec_fn(Cand) -> bool,
    s2: spec_fn(Cand) -> bool,
    prev: Option<BestState>,
    r: Option<BestState>,
)
    requires
        fold_ok(rv, osc, s, prev, r),
        forall|c: Cand| #[trigger] s2(c) && !s(c) ==> !cand_ok(rv, osc, c),
        forall|c: Cand| #[trigger] s(c) ==> s2(c),
    ensures
        fold_ok(rv, osc, s2, prev, r),
{
}

} // verus!
