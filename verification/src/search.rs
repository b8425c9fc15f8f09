use vstd::prelude::*;
use vstd::arithmetic::div_mod::lemma_fundamental_div_mod;
use crate::rate::{Hertz, Rate};
use crate::types::{
    ClockError, ClockRequirements, Config, FreqReq, Frequencies, PLLSrc, PllConfig, SysClockSrc,
};
use crate::model::{
    ahb_div, ahb_prescaler, apb_div, apb_prescaler, cand_feasible, cand_legal, cand_ok, cfg_of,
    even_div, fold_ok, freqs_of, is_winner, lemma_fold_compose, lemma_fold_stall,
    lemma_fold_widen, lex_lt, lin, matches_best, osc_of, p_ok, part1, part2, part3, part4, part5,
    part6, pfx1, pfx2, pfx3, pfx4, pfx5, pll_in_ok, prefix_ok, score_val, search_post, space1,
    space2, space3, space4, space5, space6, space_all, tail_in_range, tap_ok, vco_ok,
    BestState, Cand, PLL_IN_MAX, PLL_IN_MIN, P_MAX, P_MIN, TAP_MAX, TAP_MIN, VCO_MAX,
    VCO_MIN,
};
use crate::score::rate_bounded;

verus! {

/// The high-speed bus prescaler table, indexed in enumeration order.
fn ahb_entry(i: u64) -> (r: (crate::types::Prescaler, u64))
    requires
        i < 10,
    ensures
        r.0 == ahb_prescaler(i as int),
        r.1 == ahb_div(i as int),
        1 <= r.1 <= 512,
{
    match i {
        0 => (crate::types::Prescaler::NotDivided, 1),
        1 => (crate::types::Prescaler::Div2, 2),
        2 => (crate::types::Prescaler::Div4, 4),
        3 => (crate::types::Prescaler::Div8, 8),
        4 => (crate::types::Prescaler::Div16, 16),
        5 => (crate::types::Prescaler::Div32, 32),
        6 => (crate::types::Prescaler::Div64, 64),
        7 => (crate::types::Prescaler::Div128, 128),
        8 => (crate::types::Prescaler::Div256, 256),
        _ => (crate::types::Prescaler::Div512, 512),
    }
}

/// The low-speed bus prescaler table, indexed in enumeration order.
fn apb_entry(i: u64) -> (r: (crate::types::Prescaler, u64))
    requires
        i < 5,
    ensures
        r.0 == apb_prescaler(i as int),
        r.1 == apb_div(i as int),
        1 <= r.1 <= 16,
{
    match i {
        0 => (crate::types::Prescaler::NotDivided, 1),
        1 => (crate::types::Prescaler::Div2, 2),
        2 => (crate::types::Prescaler::Div4, 4),
        3 => (crate::types::Prescaler::Div8, 8),
        _ => (crate::types::Prescaler::Div16, 16),
    }
}

/// Walk the two system-clock mux choices and the two prescaler tables
/// for one fully pruned PLL candidate, scoring every combination.
#[verifier::loop_isolation(false)]
fn search_taps(
    reqs: &ClockRequirements,
    osc: u64,
    m: u64,
    n: u64,
    p: u64,
    ri: u64,
    qi: u64,
    best: Option<BestState>,
) -> (r: Option<BestState>)
    requires
        osc as int == osc_of(*reqs),
        osc <= 0xffff_ffff,
        prefix_ok(osc as int, m as int, n as int, p as int, ri as int, qi as int),
        best matches Some(b) ==> matches_best(*reqs, osc as int, b) && (forall|c: Cand|
            #[trigger] pfx5(c, m as int, n as int, p as int, ri as int, qi as int)
                ==> !lex_lt(c, b.cand@)),
    ensures
        fold_ok(
            *reqs,
            osc as int,
            space5(m as int, n as int, p as int, ri as int, qi as int),
            best,
            r,
        ),
{
    let ghost rv = *reqs;
    let ghost osci = osc as int;
    let ghost mi = m as int;
    let ghost ni = n as int;
    let ghost pi = p as int;
    let ghost rii = ri as int;
    let ghost qii = qi as int;

    let vco_num = osc * n;
    let r_d: u64 = 2 + 2 * ri;
    let q_d: u64 = 2 + 2 * qi;
    let m_rd = m * r_d;
    let m_qd = m * q_d;
    let m_p = m * p;
    proof {
        assert(osci * ni <= VCO_MAX * mi);
        assert(vco_num <= 5_504_000_000 && m_rd <= 128 && m_qd <= 128 && m_p <= 496)
            by (nonlinear_arith)
            requires
                vco_num as int == osci * ni,
                osci * ni <= 344_000_000 * mi,
                1 <= mi <= 16,
                r_d <= 8,
                q_d <= 8,
                p <= 31,
                m_rd as int == mi * r_d as int,
                m_qd as int == mi * q_d as int,
                m_p as int == mi * p as int,
                m == mi,
        ;
        assert(osc <= 256_000_000);
        assert(1 <= m_rd && 1 <= m_qd && 1 <= m_p) by (nonlinear_arith)
            requires
                1 <= mi,
                2 <= r_d,
                2 <= q_d,
                2 <= p,
                m_rd as int == mi * r_d as int,
                m_qd as int == mi * q_d as int,
                m_p as int == mi * p as int,
                m == mi,
        ;
    }

    let pll_mux = match reqs.hse {
        Some(h) => if reqs.hse_bypass {
            PLLSrc::HSEBypass(h)
        } else {
            PLLSrc::HSE(h)
        },
        None => PLLSrc::HSI,
    };
    let pll_cfg = PllConfig {
        mux: pll_mux,
        m: m as u8,
        n: n as u8,
        r: r_d as u8,
        q: Some(q_d as u8),
        p: Some(p as u8),
    };

    let mut cur = best;
    let mut idx: u64 = 0;
    while idx < 100
        invariant
            0 <= idx <= 100,
            cur matches Some(b) ==> matches_best(rv, osci, b) && (forall|c: Cand|
                #[trigger] pfx5(c, mi, ni, pi, rii, qii) && tail_in_range(c) && lin(c) >= idx
                    ==> !lex_lt(c, b.cand@)),
            fold_ok(rv, osci, part6(mi, ni, pi, rii, qii, idx as int), best, cur),
        decreases 100 - idx,
    {
        let mux = idx / 50;
        let rem = idx % 50;
        let ai = rem / 5;
        let bi = rem % 5;
        proof {
            lemma_fundamental_div_mod(idx as int, 50);
            lemma_fundamental_div_mod(rem as int, 5);
            assert(mux < 2 && ai < 10 && bi < 5);
            assert(50 * mux as int + 5 * ai as int + bi as int == idx as int);
        }
        let (ahb_psc, ahb_d) = ahb_entry(ai);
        let (apb_psc, apb_d) = apb_entry(bi);
        let sys = if mux == 0 {
            Rate { num: osc, den: 1 }
        } else {
            Rate { num: vco_num, den: m_rd }
        };
        proof {
            assert(sys.den as int * ahb_d as int <= 65536 && forall|x: int|
                0 <= x <= 65536 ==> #[trigger] (x * apb_d as int) <= 1_048_576)
                by (nonlinear_arith)
                requires
                    1 <= sys.den <= 128,
                    1 <= ahb_d <= 512,
                    1 <= apb_d <= 16,
            ;
        }
        let hclk_den = sys.den * ahb_d;
        let pclk_den = hclk_den * apb_d;
        let freqs = Frequencies {
            pllp: Rate { num: vco_num, den: m_p },
            pllq: Rate { num: vco_num, den: m_qd },
            pllr: Rate { num: vco_num, den: m_rd },
            sysclk: sys,
            hclk: Rate { num: sys.num, den: hclk_den },
            pclk1: Rate { num: sys.num, den: pclk_den },
            pclk2: Rate { num: sys.num, den: pclk_den },
            usb_rng_clk: Rate { num: vco_num, den: m_qd },
        };
        let sys_mux = if mux == 0 {
            match reqs.hse {
                Some(h) => SysClockSrc::HSE(h),
                None => SysClockSrc::HSI,
            }
        } else {
            SysClockSrc::PLL
        };
        let cfg = Config { sys_mux, pll_cfg, ahb_psc, apb_psc };
        let ghost c = Cand {
            m: mi,
            n: ni,
            p: pi,
            ri: rii,
            qi: qii,
            mux: mux as int,
            ai: ai as int,
            bi: bi as int,
        };
        proof {
            assert(freqs == freqs_of(osci, c));
            assert(cfg == cfg_of(rv, c));
            assert(cand_legal(osci, c));
            assert(rate_bounded(freqs.sysclk));
            assert(rate_bounded(freqs.usb_rng_clk));
            assert forall|c2: Cand| #[trigger] space6(mi, ni, pi, rii, qii, idx as int)(c2)
                implies c2 == c by {
                assert(50 * c2.mux + 5 * c2.ai + c2.bi == idx as int);
                assert(c2.mux == c.mux && c2.ai == c.ai && c2.bi == c.bi);
            }
        }
        let ghost prev_cur = cur;
        match reqs.calculate_error(&cfg, &freqs) {
            Ok(err) => {
                let improved = match &cur {
                    None => true,
                    Some(b) => b.err > err,
                };
                if improved {
                    cur = Some(BestState { cfg, freqs, err, cand: Ghost(c) });
                }
                proof {
                    assert(cand_ok(rv, osci, c));
                    assert(score_val(rv, osci, c) == err as int);
                    assert(fold_ok(rv, osci, space6(mi, ni, pi, rii, qii, idx as int), prev_cur, cur));
                }
            },
            Err(_e) => {
                proof {
                    assert(!cand_feasible(rv, osci, c));
                    assert forall|c2: Cand| #[trigger] space6(mi, ni, pi, rii, qii, idx as int)(c2)
                        implies !cand_ok(rv, osci, c2) by {
                        assert(c2 == c);
                    }
                    lemma_fold_stall(rv, osci, space6(mi, ni, pi, rii, qii, idx as int), cur);
                }
            },
        }
        proof {
            assert forall|c1: Cand, c2: Cand|
                #[trigger] part6(mi, ni, pi, rii, qii, idx as int)(c1)
                    && #[trigger] space6(mi, ni, pi, rii, qii, idx as int)(c2)
                implies lex_lt(c1, c2) by {
                assert(lin(c1) < lin(c2));
                if c1.mux == c2.mux {
                    if c1.ai == c2.ai {
                        assert(c1.bi < c2.bi);
                    } else {
                        assert(c1.ai < c2.ai);
                    }
                } else {
                    assert(c1.mux < c2.mux);
                }
            }
            lemma_fold_compose(
                rv,
                osci,
                part6(mi, ni, pi, rii, qii, idx as int),
                space6(mi, ni, pi, rii, qii, idx as int),
                part6(mi, ni, pi, rii, qii, idx as int + 1),
                best,
                prev_cur,
                cur,
            );
            // The retained best never lies later in the enumeration than
            // anything still to come.
            if let Some(b) = cur {
                assert forall|c2: Cand|
                    #[trigger] pfx5(c2, mi, ni, pi, rii, qii) && tail_in_range(c2)
                        && lin(c2) >= idx + 1 implies !lex_lt(c2, b.cand@) by {
                    if cur == prev_cur {
                    } else {
                        assert(b.cand@ == c);
                        if lex_lt(c2, c) {
                            assert(lin(c2) < lin(c));
                        }
                    }
                }
            }
        }
        idx = idx + 1;
    }
    proof {
        assert forall|c2: Cand|
            #[trigger] space5(mi, ni, pi, rii, qii)(c2)
                && !(part6(mi, ni, pi, rii, qii, 100)(c2)) implies !cand_ok(rv, osci, c2) by {
            if tail_in_range(c2) {
                assert(lin(c2) < 100);
            }
        }
        lemma_fold_widen(
            rv,
            osci,
            part6(mi, ni, pi, rii, qii, 100),
            space5(mi, ni, pi, rii, qii),
            best,
            cur,
        );
    }
    cur
}

/// Walk the `q` output divider choices for one (m, n, p, r) prefix,
/// pruning any whose `q` tap leaves its legal range.
#[verifier::loop_isolation(false)]
fn search_q(
    reqs: &ClockRequirements,
    osc: u64,
    m: u64,
    n: u64,
    p: u64,
    ri: u64,
    best: Option<BestState>,
) -> (r: Option<BestState>)
    requires
        osc as int == osc_of(*reqs),
        osc <= 0xffff_ffff,
        1 <= m <= 16,
        8 <= n <= 127,
        2 <= p <= 31,
        ri < 4,
        pll_in_ok(osc as int, m as int),
        vco_ok(osc as int, m as int, n as int),
        p_ok(osc as int, m as int, n as int, p as int),
        tap_ok(osc as int, m as int, n as int, even_div(ri as int)),
        best matches Some(b) ==> matches_best(*reqs, osc as int, b) && (forall|c: Cand|
            #[trigger] pfx4(c, m as int, n as int, p as int, ri as int) ==> !lex_lt(c, b.cand@)),
    ensures
        fold_ok(*reqs, osc as int, space4(m as int, n as int, p as int, ri as int), best, r),
{
    let ghost rv = *reqs;
    let ghost osci = osc as int;
    let ghost mi = m as int;
    let ghost ni = n as int;
    let ghost pi = p as int;
    let ghost rii = ri as int;
    let vco_num = osc * n;
    proof {
        assert(osc <= 256_000_000);
        assert(osc as int * n as int <= 256_000_000 * 127) by (nonlinear_arith)
            requires
                osc <= 256_000_000,
                n <= 127,
        ;
    }
    let mut cur = best;
    let mut qi: u64 = 0;
    while qi < 4
        invariant
            qi <= 4,
            cur matches Some(b) ==> matches_best(rv, osci, b) && (forall|c: Cand|
                #[trigger] pfx4(c, mi, ni, pi, rii) && c.qi >= qi ==> !lex_lt(c, b.cand@)),
            fold_ok(rv, osci, part5(mi, ni, pi, rii, qi as int), best, cur),
        decreases 4 - qi,
    {
        let ghost prev_cur = cur;
        let q_d: u64 = 2 + 2 * qi;
        proof {
            assert(m as int * q_d as int <= 128) by (nonlinear_arith)
                requires
                    m <= 16,
                    q_d <= 8,
            ;
        }
        let m_qd = m * q_d;
        proof {
            assert(m_qd <= 128 && m_qd as int == mi * even_div(qi as int)) by (nonlinear_arith)
                requires
                    1 <= mi <= 16,
                    2 <= q_d <= 8,
                    m_qd as int == mi * q_d as int,
                    m == mi,
                    q_d == 2 + 2 * (qi as int),
                    even_div(qi as int) == 2 + 2 * (qi as int),
            ;
        }
        if TAP_MIN * m_qd <= vco_num && vco_num <= TAP_MAX * m_qd {
            proof {
                assert(tap_ok(osci, mi, ni, even_div(qi as int)));
            }
            cur = search_taps(reqs, osc, m, n, p, ri, qi, cur);
        } else {
            proof {
                assert(!tap_ok(osci, mi, ni, even_div(qi as int)));
                assert forall|c2: Cand| #[trigger] space5(mi, ni, pi, rii, qi as int)(c2)
                    implies !cand_ok(rv, osci, c2) by {}
                lemma_fold_stall(rv, osci, space5(mi, ni, pi, rii, qi as int), cur);
            }
        }
        proof {
            assert forall|c1: Cand, c2: Cand|
                #[trigger] part5(mi, ni, pi, rii, qi as int)(c1)
                    && #[trigger] space5(mi, ni, pi, rii, qi as int)(c2)
                implies lex_lt(c1, c2) by {}
            lemma_fold_compose(
                rv,
                osci,
                part5(mi, ni, pi, rii, qi as int),
                space5(mi, ni, pi, rii, qi as int),
                part5(mi, ni, pi, rii, qi as int + 1),
                best,
                prev_cur,
                cur,
            );
            if let Some(b) = cur {
                assert forall|c2: Cand|
                    #[trigger] pfx4(c2, mi, ni, pi, rii) && c2.qi >= qi + 1
                    implies !lex_lt(c2, b.cand@) by {
                    if cur == prev_cur {
                    } else {
                        assert(space5(mi, ni, pi, rii, qi as int)(b.cand@));
                    }
                }
            }
        }
        qi = qi + 1;
    }
    proof {
        assert forall|c2: Cand|
            #[trigger] space4(mi, ni, pi, rii)(c2) && !(part5(mi, ni, pi, rii, 4)(c2))
            implies !cand_ok(rv, osci, c2) by {}
        lemma_fold_widen(rv, osci, part5(mi, ni, pi, rii, 4), space4(mi, ni, pi, rii), best, cur);
    }
    cur
}

/// Walk the `r` output divider choices for one (m, n, p) prefix, pruning
/// any whose `r` tap leaves its legal range.
#[verifier::loop_isolation(false)]
fn search_r(
    reqs: &ClockRequirements,
    osc: u64,
    m: u64,
    n: u64,
    p: u64,
    best: Option<BestState>,
) -> (r: Option<BestState>)
    requires
        osc as int == osc_of(*reqs),
        osc <= 0xffff_ffff,
        1 <= m <= 16,
        8 <= n <= 127,
        2 <= p <= 31,
        pll_in_ok(osc as int, m as int),
        vco_ok(osc as int, m as int, n as int),
        p_ok(osc as int, m as int, n as int, p as int),
        best matches Some(b) ==> matches_best(*reqs, osc as int, b) && (forall|c: Cand|
            #[trigger] pfx3(c, m as int, n as int, p as int) ==> !lex_lt(c, b.cand@)),
    ensures
        fold_ok(*reqs, osc as int, space3(m as int, n as int, p as int), best, r),
{
    let ghost rv = *reqs;
    let ghost osci = osc as int;
    let ghost mi = m as int;
    let ghost ni = n as int;
    let ghost pi = p as int;
    let vco_num = osc * n;
    proof {
        assert(osc <= 256_000_000);
        assert(osc as int * n as int <= 256_000_000 * 127) by (nonlinear_arith)
            requires
                osc <= 256_000_000,
                n <= 127,
        ;
    }
    let mut cur = best;
    let mut ri: u64 = 0;
    while ri < 4
        invariant
            ri <= 4,
            cur matches Some(b) ==> matches_best(rv, osci, b) && (forall|c: Cand|
                #[trigger] pfx3(c, mi, ni, pi) && c.ri >= ri ==> !lex_lt(c, b.cand@)),
            fold_ok(rv, osci, part4(mi, ni, pi, ri as int), best, cur),
        decreases 4 - ri,
    {
        let ghost prev_cur = cur;
        let r_d: u64 = 2 + 2 * ri;
        proof {
            assert(m as int * r_d as int <= 128) by (nonlinear_arith)
                requires
                    m <= 16,
                    r_d <= 8,
            ;
        }
        let m_rd = m * r_d;
        proof {
            assert(m_rd <= 128 && m_rd as int == mi * even_div(ri as int)) by (nonlinear_arith)
                requires
                    1 <= mi <= 16,
                    2 <= r_d <= 8,
                    m_rd as int == mi * r_d as int,
                    m == mi,
                    r_d == 2 + 2 * (ri as int),
                    even_div(ri as int) == 2 + 2 * (ri as int),
            ;
        }
        if TAP_MIN * m_rd <= vco_num && vco_num <= TAP_MAX * m_rd {
            proof {
                assert(tap_ok(osci, mi, ni, even_div(ri as int)));
            }
            cur = search_q(reqs, osc, m, n, p, ri, cur);
        } else {
            proof {
                assert(!tap_ok(osci, mi, ni, even_div(ri as int)));
                assert forall|c2: Cand| #[trigger] space4(mi, ni, pi, ri as int)(c2)
                    implies !cand_ok(rv, osci, c2) by {}
                lemma_fold_stall(rv, osci, space4(mi, ni, pi, ri as int), cur);
            }
        }
        proof {
            assert forall|c1: Cand, c2: Cand|
                #[trigger] part4(mi, ni, pi, ri as int)(c1)
                    && #[trigger] space4(mi, ni, pi, ri as int)(c2)
                implies lex_lt(c1, c2) by {}
            lemma_fold_compose(
                rv,
                osci,
                part4(mi, ni, pi, ri as int),
                space4(mi, ni, pi, ri as int),
                part4(mi, ni, pi, ri as int + 1),
                best,
                prev_cur,
                cur,
            );
            if let Some(b) = cur {
                assert forall|c2: Cand| #[trigger] pfx3(c2, mi, ni, pi) && c2.ri >= ri + 1
                    implies !lex_lt(c2, b.cand@) by {
                    if cur == prev_cur {
                    } else {
                        assert(space4(mi, ni, pi, ri as int)(b.cand@));
                    }
                }
            }
        }
        ri = ri + 1;
    }
    proof {
        assert forall|c2: Cand| #[trigger] space3(mi, ni, pi)(c2) && !(part4(mi, ni, pi, 4)(c2))
            implies !cand_ok(rv, osci, c2) by {}
        lemma_fold_widen(rv, osci, part4(mi, ni, pi, 4), space3(mi, ni, pi), best, cur);
    }
    cur
}

/// Walk the `p` output divider choices for one (m, n) prefix, pruning
/// any whose `p` tap leaves its legal range.
#[verifier::loop_isolation(false)]
fn search_p(reqs: &ClockRequirements, osc: u64, m: u64, n: u64, best: Option<BestState>) -> (r:
    Option<BestState>)
    requires
        osc as int == osc_of(*reqs),
        osc <= 0xffff_ffff,
        1 <= m <= 16,
        8 <= n <= 127,
        pll_in_ok(osc as int, m as int),
        vco_ok(osc as int, m as int, n as int),
        best matches Some(b) ==> matches_best(*reqs, osc as int, b) && (forall|c: Cand|
            #[trigger] pfx2(c, m as int, n as int) ==> !lex_lt(c, b.cand@)),
    ensures
        fold_ok(*reqs, osc as int, space2(m as int, n as int), best, r),
{
    let ghost rv = *reqs;
    let ghost osci = osc as int;
    let ghost mi = m as int;
    let ghost ni = n as int;
    let vco_num = osc * n;
    proof {
        assert(osc <= 256_000_000);
        assert(osc as int * n as int <= 256_000_000 * 127) by (nonlinear_arith)
            requires
                osc <= 256_000_000,
                n <= 127,
        ;
    }
    let mut cur = best;
    let mut p: u64 = 2;
    while p <= 31
        invariant
            2 <= p <= 32,
            cur matches Some(b) ==> matches_best(rv, osci, b) && (forall|c: Cand|
                #[trigger] pfx2(c, mi, ni) && c.p >= p ==> !lex_lt(c, b.cand@)),
            fold_ok(rv, osci, part3(mi, ni, p as int), best, cur),
        decreases 32 - p,
    {
        let ghost prev_cur = cur;
        proof {
            assert(m as int * p as int <= 496) by (nonlinear_arith)
                requires
                    m <= 16,
                    p <= 31,
            ;
        }
        let m_p = m * p;
        proof {
            assert(m_p <= 496 && m_p as int == mi * p as int) by (nonlinear_arith)
                requires
                    1 <= mi <= 16,
                    2 <= p <= 31,
                    m_p as int == mi * p as int,
                    m == mi,
            ;
        }
        if P_MIN * m_p <= vco_num && vco_num <= P_MAX * m_p {
            proof {
                assert(p_ok(osci, mi, ni, p as int));
            }
            cur = search_r(reqs, osc, m, n, p, cur);
        } else {
            proof {
                assert(!p_ok(osci, mi, ni, p as int));
                assert forall|c2: Cand| #[trigger] space3(mi, ni, p as int)(c2)
                    implies !cand_ok(rv, osci, c2) by {}
                lemma_fold_stall(rv, osci, space3(mi, ni, p as int), cur);
            }
        }
        proof {
            assert forall|c1: Cand, c2: Cand|
                #[trigger] part3(mi, ni, p as int)(c1) && #[trigger] space3(mi, ni, p as int)(c2)
                implies lex_lt(c1, c2) by {}
            lemma_fold_compose(
                rv,
                osci,
                part3(mi, ni, p as int),
                space3(mi, ni, p as int),
                part3(mi, ni, p as int + 1),
                best,
                prev_cur,
                cur,
            );
            if let Some(b) = cur {
                assert forall|c2: Cand| #[trigger] pfx2(c2, mi, ni) && c2.p >= p + 1
                    implies !lex_lt(c2, b.cand@) by {
                    if cur == prev_cur {
                    } else {
                        assert(space3(mi, ni, p as int)(b.cand@));
                    }
                }
            }
        }
        p = p + 1;
    }
    proof {
        assert forall|c2: Cand| #[trigger] space2(mi, ni)(c2) && !(part3(mi, ni, 32)(c2))
            implies !cand_ok(rv, osci, c2) by {}
        lemma_fold_widen(rv, osci, part3(mi, ni, 32), space2(mi, ni), best, cur);
    }
    cur
}

/// Walk the PLL multiplier choices for one `m` prefix, pruning any whose
/// VCO output leaves its legal range.
#[verifier::loop_isolation(false)]
fn search_n(reqs: &ClockRequirements, osc: u64, m: u64, best: Option<BestState>) -> (r: Option<
    BestState,
>)
    requires
        osc as int == osc_of(*reqs),
        osc <= 0xffff_ffff,
        1 <= m <= 16,
        pll_in_ok(osc as int, m as int),
        best matches Some(b) ==> matches_best(*reqs, osc as int, b) && (forall|c: Cand|
            #[trigger] pfx1(c, m as int) ==> !lex_lt(c, b.cand@)),
    ensures
        fold_ok(*reqs, osc as int, space1(m as int), best, r),
{
    let ghost rv = *reqs;
    let ghost osci = osc as int;
    let ghost mi = m as int;
    proof {
        assert(osc <= 256_000_000);
    }
    let mut cur = best;
    let mut n: u64 = 8;
    while n <= 127
        invariant
            8 <= n <= 128,
            cur matches Some(b) ==> matches_best(rv, osci, b) && (forall|c: Cand|
                #[trigger] pfx1(c, mi) && c.n >= n ==> !lex_lt(c, b.cand@)),
            fold_ok(rv, osci, part2(mi, n as int), best, cur),
        decreases 128 - n,
    {
        let ghost prev_cur = cur;
        proof {
            assert(osc as int * n as int <= 256_000_000 * 127) by (nonlinear_arith)
                requires
                    osc <= 256_000_000,
                    n <= 127,
            ;
        }
        let vco_num = osc * n;
        if VCO_MIN * m <= vco_num && vco_num <= VCO_MAX * m {
            proof {
                assert(vco_ok(osci, mi, n as int));
            }
            cur = search_p(reqs, osc, m, n, cur);
        } else {
            proof {
                assert(!vco_ok(osci, mi, n as int));
                assert forall|c2: Cand| #[trigger] space2(mi, n as int)(c2)
                    implies !cand_ok(rv, osci, c2) by {}
                lemma_fold_stall(rv, osci, space2(mi, n as int), cur);
            }
        }
        proof {
            assert forall|c1: Cand, c2: Cand|
                #[trigger] part2(mi, n as int)(c1) && #[trigger] space2(mi, n as int)(c2)
                implies lex_lt(c1, c2) by {}
            lemma_fold_compose(
                rv,
                osci,
                part2(mi, n as int),
                space2(mi, n as int),
                part2(mi, n as int + 1),
                best,
                prev_cur,
                cur,
            );
            if let Some(b) = cur {
                assert forall|c2: Cand| #[trigger] pfx1(c2, mi) && c2.n >= n + 1
                    implies !lex_lt(c2, b.cand@) by {
                    if cur == prev_cur {
                    } else {
                        assert(space2(mi, n as int)(b.cand@));
                    }
                }
            }
        }
        n = n + 1;
    }
    proof {
        assert forall|c2: Cand| #[trigger] space1(mi)(c2) && !(part2(mi, 128)(c2))
            implies !cand_ok(rv, osci, c2) by {}
        lemma_fold_widen(rv, osci, part2(mi, 128), space1(mi), best, cur);
    }
    cur
}

/// The requirements after the defaulting pass: if no bus requirement at
/// all was given, a single 48 MHz high-speed-bus target is injected so
/// that the search always has one soft objective.
pub open spec fn defaulted(rv: ClockRequirements) -> ClockRequirements {
    if rv.sysclk is None && rv.hclk is None && rv.pclk1 is None && rv.pclk2 is None {
        ClockRequirements {
            hclk: Some(FreqReq { freq: Some(Hertz(48_000_000)), min: None, max: None }),
            ..rv
        }
    } else {
        rv
    }
}

impl ClockRequirements {
    /// An empty requirement set: no oscillator forced, no per-bus
    /// requirement, no precise auxiliary clock demand.
    pub fn new() -> (r: Self)
        ensures
            r == (ClockRequirements {
                hse: None,
                hse_bypass: false,
                sysclk: None,
                hclk: None,
                pclk1: None,
                pclk2: None,
                usb_rng_clk: false,
            }),
    {
        ClockRequirements {
            hse: None,
            hse_bypass: false,
            sysclk: None,
            hclk: None,
            pclk1: None,
            pclk2: None,
            usb_rng_clk: false,
        }
    }

    /// Use an external oscillator of the given frequency; resets any
    /// bypass choice.
    pub fn hse(self, freq: Hertz) -> (r: Self)
        ensures
            r == (ClockRequirements { hse: Some(freq), hse_bypass: false, ..self }),
    {
        ClockRequirements { hse: Some(freq), hse_bypass: false, ..self }
    }

    /// Use an external oscillator of the given frequency in bypass mode.
    pub fn hse_bypass(self, freq: Hertz) -> (r: Self)
        ensures
            r == (ClockRequirements { hse: Some(freq), hse_bypass: true, ..self }),
    {
        ClockRequirements { hse: Some(freq), hse_bypass: true, ..self }
    }

    /// Require a system clock frequency.
    pub fn sysclk(self, freq: FreqReq) -> (r: Self)
        ensures
            r == (ClockRequirements { sysclk: Some(freq), ..self }),
    {
        ClockRequirements { sysclk: Some(freq), ..self }
    }

    /// Require a high-speed bus frequency.
    pub fn hclk(self, freq: FreqReq) -> (r: Self)
        ensures
            r == (ClockRequirements { hclk: Some(freq), ..self }),
    {
        ClockRequirements { hclk: Some(freq), ..self }
    }

    /// Require a low-speed bus 1 frequency.
    pub fn pclk1(self, freq: FreqReq) -> (r: Self)
        ensures
            r == (ClockRequirements { pclk1: Some(freq), ..self }),
    {
        ClockRequirements { pclk1: Some(freq), ..self }
    }

    /// Require a low-speed bus 2 frequency.
    pub fn pclk2(self, freq: FreqReq) -> (r: Self)
        ensures
            r == (ClockRequirements { pclk2: Some(freq), ..self }),
    {
        ClockRequirements { pclk2: Some(freq), ..self }
    }

    /// Demand a precise 48 MHz auxiliary USB/RNG clock.
    pub fn usb_rng_clk(self, usb_rng_clk: bool) -> (r: Self)
        ensures
            r == (ClockRequirements { usb_rng_clk: usb_rng_clk, ..self }),
    {
        ClockRequirements { usb_rng_clk: usb_rng_clk, ..self }
    }

    /// Inject the defaulting policy: with no bus requirement at all, a
    /// single 48 MHz high-speed-bus target.
    fn sensible_defaults(&mut self)
        ensures
            *final(self) == defaulted(*old(self)),
    {
        if self.sysclk.is_none() && self.hclk.is_none() && self.pclk1.is_none()
            && self.pclk2.is_none() {
            self.hclk = Some(FreqReq { freq: Some(Hertz(48_000_000)), min: None, max: None });
        }
    }

    /// Exhaustively search the clock tree for the configuration with the
    /// lowest score under these requirements, as they stand (no
    /// defaulting pass).
    #[verifier::loop_isolation(false)]
    pub fn search_config(&self) -> (r: Result<(Config, Frequencies), ClockError>)
        ensures
            search_post(*self, r),
    {
        let osc: u64 = match self.hse {
            Some(h) => h.0 as u64,
            None => 16_000_000,
        };
        let ghost rv = *self;
        let ghost osci = osc as int;
        let mut cur: Option<BestState> = None;
        let mut m: u64 = 1;
        proof {
            assert forall|c2: Cand| #[trigger] part1(1)(c2) implies !cand_ok(rv, osci, c2) by {}
            lemma_fold_stall(rv, osci, part1(1), cur);
        }
        while m <= 16
            invariant
                1 <= m <= 17,
                cur matches Some(b) ==> matches_best(rv, osci, b) && (forall|c: Cand|
                    c.m >= m ==> !#[trigger] lex_lt(c, b.cand@)),
                fold_ok(rv, osci, part1(m as int), None, cur),
            decreases 17 - m,
        {
            let ghost prev_cur = cur;
            if PLL_IN_MIN * m <= osc && osc <= PLL_IN_MAX * m {
                proof {
                    assert(pll_in_ok(osci, m as int));
                }
                cur = search_n(self, osc, m, cur);
            } else {
                proof {
                    assert(!pll_in_ok(osci, m as int));
                    assert forall|c2: Cand| #[trigger] space1(m as int)(c2)
                        implies !cand_ok(rv, osci, c2) by {}
                    lemma_fold_stall(rv, osci, space1(m as int), cur);
                }
            }
            proof {
                assert forall|c1: Cand, c2: Cand|
                    #[trigger] part1(m as int)(c1) && #[trigger] space1(m as int)(c2)
                    implies lex_lt(c1, c2) by {}
                lemma_fold_compose(
                    rv,
                    osci,
                    part1(m as int),
                    space1(m as int),
                    part1(m as int + 1),
                    None,
                    prev_cur,
                    cur,
                );
                if let Some(b) = cur {
                    assert forall|c2: Cand| c2.m >= m + 1 implies !lex_lt(c2, b.cand@) by {
                        if cur == prev_cur {
                        } else {
                            assert(space1(m as int)(b.cand@));
                        }
                    }
                }
            }
            m = m + 1;
        }
        proof {
            assert forall|c2: Cand| #[trigger] space_all()(c2) && !(part1(17)(c2))
                implies !cand_ok(rv, osci, c2) by {}
            lemma_fold_widen(rv, osci, part1(17), space_all(), None, cur);
        }
        match cur {
            Some(b) => {
                proof {
                    let cw = b.cand@;
                    assert forall|c2: Cand| #[trigger] cand_ok(rv, osci, c2) implies {
                        &&& score_val(rv, osci, c2) >= score_val(rv, osci, cw)
                        &&& (lex_lt(c2, cw) ==> score_val(rv, osci, c2) > score_val(rv, osci, cw))
                    } by {
                        assert(space_all()(c2));
                    }
                    assert(is_winner(rv, osci, cw));
                    assert(osci == osc_of(rv));
                    assert(is_winner(rv, osc_of(rv), cw) && b.cfg == cfg_of(rv, cw)
                        && b.freqs == freqs_of(osc_of(rv), cw));
                    assert(search_post(rv, Ok::<(Config, Frequencies), ClockError>((b.cfg, b.freqs))));
                }
                Ok((b.cfg, b.freqs))
            },
            None => {
                proof {
                    assert forall|c2: Cand| !#[trigger] cand_ok(rv, osci, c2) by {
                        assert(space_all()(c2));
                    }
                }
                Err(ClockError::NoClockFound("no clock found".to_owned()))
            },
        }
    }

    /// Resolve the requirements into the lowest-error hardware-legal
    /// configuration and the frequencies it produces, or fail when no
    /// legal configuration passes every hard check.
    ///
    /// The `ignore_hardware_caps` flag is reserved for absolute-maximum
    /// checks of the oscillator and final bus frequencies, which are not
    /// performed; it currently has no effect.
    pub fn resolve(self, ignore_hardware_caps: bool) -> (r: Result<
        (Config, Frequencies),
        ClockError,
    >)
        ensures
            search_post(defaulted(self), r),
    {
        let _ = ignore_hardware_caps;
        let mut reqs = self;
        reqs.sensible_defaults();
        reqs.search_config()
    }
}

} // verus!
