use clock_tree::rate::Hertz;
use clock_tree::types::{ClockError, ClockRequirements, FreqReq, Prescaler, SysClockSrc};

#[test]
fn test_defaults() {
    let _reqs = ClockRequirements::new();
}

#[test]
fn builder_fields() {
    let reqs = ClockRequirements::new();
    assert_eq!(reqs.hse, None);
    assert!(!reqs.hse_bypass);
    assert_eq!(reqs.sysclk, None);
    assert_eq!(reqs.hclk, None);
    assert_eq!(reqs.pclk1, None);
    assert_eq!(reqs.pclk2, None);
    assert!(!reqs.usb_rng_clk);

    let reqs = reqs.hse_bypass(Hertz(8_000_000));
    assert_eq!(reqs.hse, Some(Hertz(8_000_000)));
    assert!(reqs.hse_bypass);

    // Choosing a plain external oscillator resets the bypass choice.
    let reqs = reqs.hse(Hertz(24_000_000));
    assert_eq!(reqs.hse, Some(Hertz(24_000_000)));
    assert!(!reqs.hse_bypass);

    let reqs = reqs
        .sysclk(FreqReq::new(Hertz(170_000_000)))
        .hclk(FreqReq::new(Hertz(100_000_000)))
        .pclk1(FreqReq::new(Hertz(50_000_000)))
        .pclk2(FreqReq::new(Hertz(25_000_000)))
        .usb_rng_clk(true);
    assert_eq!(reqs.sysclk, Some(FreqReq::new(Hertz(170_000_000))));
    assert_eq!(reqs.hclk, Some(FreqReq::new(Hertz(100_000_000))));
    assert_eq!(reqs.pclk1, Some(FreqReq::new(Hertz(50_000_000))));
    assert_eq!(reqs.pclk2, Some(FreqReq::new(Hertz(25_000_000))));
    assert!(reqs.usb_rng_clk);
}

#[test]
fn freq_req_forms() {
    let r = FreqReq::new(Hertz(48_000_000));
    assert_eq!(r.freq, Some(Hertz(48_000_000)));
    assert_eq!(r.min, None);
    assert_eq!(r.max, None);

    let r = FreqReq::precise(Hertz(48_000_000));
    assert_eq!(r.freq, Some(Hertz(48_000_000)));
    assert_eq!(r.min, Some(Hertz(48_000_000)));
    assert_eq!(r.max, Some(Hertz(48_000_000)));

    let r = FreqReq::from(Hertz(10)).min(Hertz(5)).max(Hertz(20));
    assert_eq!(r.freq, Some(Hertz(10)));
    assert_eq!(r.min, Some(Hertz(5)));
    assert_eq!(r.max, Some(Hertz(20)));
}

#[test]
fn default_request_internal_oscillator() {
    // With no bus requirement, a 48 MHz high-speed-bus target is injected,
    // and 48 MHz is exactly reachable from the internal 16 MHz oscillator:
    // 16 MHz / 1 * 12 / 4 = 48 MHz.
    let (cfg, freqs) = ClockRequirements::new().resolve(false).unwrap();
    assert!(matches!(cfg.sys_mux, SysClockSrc::PLL));
    assert_eq!(cfg.pll_cfg.m, 1);
    assert_eq!(cfg.pll_cfg.n, 12);
    assert_eq!(cfg.pll_cfg.r, 4);
    assert_eq!(cfg.pll_cfg.q, Some(2));
    assert_eq!(cfg.pll_cfg.p, Some(2));
    assert_eq!(cfg.ahb_psc, Prescaler::NotDivided);
    assert_eq!(cfg.apb_psc, Prescaler::NotDivided);
    assert!(freqs.hclk.is_exactly(48_000_000));
    assert!(freqs.sysclk.is_exactly(48_000_000));
    assert_eq!(freqs.hclk.floor_hz(), 48_000_000);
    assert!(freqs.pllr.is_exactly(48_000_000));
    assert!(freqs.pllq.is_exactly(96_000_000));
}

#[test]
fn external_oscillator_sysclk_target() {
    // 170 MHz is exactly reachable from 24 MHz: 24 / 6 * 85 / 2 = 170.
    let (cfg, freqs) = ClockRequirements::new()
        .hse(Hertz(24_000_000))
        .sysclk(FreqReq::new(Hertz(170_000_000)))
        .resolve(false)
        .unwrap();
    assert!(matches!(cfg.sys_mux, SysClockSrc::PLL));
    assert_eq!(cfg.pll_cfg.m, 6);
    assert_eq!(cfg.pll_cfg.n, 85);
    assert_eq!(cfg.pll_cfg.r, 2);
    assert_eq!(cfg.pll_cfg.q, Some(2));
    assert_eq!(cfg.pll_cfg.p, Some(2));
    assert!(freqs.sysclk.is_exactly(170_000_000));
    assert_eq!(freqs.sysclk.floor_hz(), 170_000_000);
}

#[test]
fn external_oscillator_precise_usb() {
    // Demanding the precise auxiliary clock constrains the VCO to a
    // multiple of 48 MHz, so the system clock can only reach 144 MHz:
    // 24 / 2 * 24 = 288 MHz VCO, r = 2 gives 144 MHz, q = 6 gives 48 MHz.
    let (cfg, freqs) = ClockRequirements::new()
        .hse(Hertz(24_000_000))
        .sysclk(FreqReq::new(Hertz(170_000_000)))
        .usb_rng_clk(true)
        .resolve(false)
        .unwrap();
    assert!(matches!(cfg.sys_mux, SysClockSrc::PLL));
    assert_eq!(cfg.pll_cfg.m, 2);
    assert_eq!(cfg.pll_cfg.n, 24);
    assert_eq!(cfg.pll_cfg.r, 2);
    assert_eq!(cfg.pll_cfg.q, Some(6));
    assert_eq!(cfg.pll_cfg.p, Some(2));
    assert!(freqs.usb_rng_clk.is_exactly(48_000_000));
    assert!(freqs.sysclk.is_exactly(144_000_000));
    // Within 1 kHz of 48 MHz, as the hard check demands.
    let usb = freqs.usb_rng_clk.floor_hz();
    assert!((47_999_000..=48_001_000).contains(&usb));
}

#[test]
fn unreachable_min_bound_fails() {
    // No legal path reaches 200 MHz: the PLL r output is capped at
    // 170 MHz and the internal oscillator runs at 16 MHz.
    let err = ClockRequirements::new()
        .sysclk(FreqReq::new(Hertz(170_000_000)).min(Hertz(200_000_000)))
        .resolve(false)
        .unwrap_err();
    assert!(matches!(err, ClockError::NoClockFound(_)));
}

#[test]
fn unreachable_usb_band_fails() {
    // An 11 MHz oscillator can never produce a tap within 1 kHz of
    // 48 MHz: every quotient 11 MHz * n / (m * q) misses the band.
    let err = ClockRequirements::new()
        .hse(Hertz(11_000_000))
        .usb_rng_clk(true)
        .resolve(false)
        .unwrap_err();
    assert!(matches!(err, ClockError::NoClockFound(_)));
}

#[test]
fn max_bound_rejects_high_candidates() {
    // A hard upper bound of 40 MHz on the system clock forces the best
    // at-most-40 MHz candidate even though the target is 170 MHz.
    let (_cfg, freqs) = ClockRequirements::new()
        .sysclk(FreqReq::new(Hertz(170_000_000)).max(Hertz(40_000_000)))
        .resolve(false)
        .unwrap();
    assert!(freqs.sysclk.floor_hz() <= 40_000_000);
    assert!(freqs.sysclk.is_exactly(40_000_000));
}

#[test]
fn returned_taps_lie_in_legal_ranges() {
    let (cfg, freqs) = ClockRequirements::new()
        .hse(Hertz(24_000_000))
        .sysclk(FreqReq::new(Hertz(170_000_000)))
        .resolve(false)
        .unwrap();
    // PLL input range, cross-multiplied: 2.66 MHz <= 24 MHz / m <= 16 MHz.
    let m = u64::from(cfg.pll_cfg.m);
    assert!(2_660_000 * m <= 24_000_000 && 24_000_000 <= 16_000_000 * m);
    // VCO range: 96 MHz <= 24 MHz * n / m <= 344 MHz.
    let n = u64::from(cfg.pll_cfg.n);
    assert!(96_000_000 * m <= 24_000_000 * n && 24_000_000 * n <= 344_000_000 * m);
    // P/Q/R output ranges over the exact rationals.
    assert!(2_064_500 * freqs.pllp.den <= freqs.pllp.num);
    assert!(freqs.pllp.num <= 170_000_000 * freqs.pllp.den);
    assert!(8_000_000 * freqs.pllq.den <= freqs.pllq.num);
    assert!(freqs.pllq.num <= 170_000_000 * freqs.pllq.den);
    assert!(8_000_000 * freqs.pllr.den <= freqs.pllr.num);
    assert!(freqs.pllr.num <= 170_000_000 * freqs.pllr.den);
}

#[test]
fn zero_target_makes_all_candidates_tie() {
    // A zero-hertz target saturates every candidate's score, so the very
    // first legal, feasible candidate in enumeration order wins.
    let (cfg, freqs) = ClockRequirements::new()
        .sysclk(FreqReq::new(Hertz(0)))
        .resolve(false)
        .unwrap();
    assert!(matches!(cfg.sys_mux, SysClockSrc::HSI));
    assert_eq!(cfg.pll_cfg.m, 1);
    assert_eq!(cfg.pll_cfg.n, 8);
    assert_eq!(cfg.pll_cfg.r, 2);
    assert_eq!(cfg.pll_cfg.q, Some(2));
    assert_eq!(cfg.pll_cfg.p, Some(2));
    assert_eq!(cfg.ahb_psc, Prescaler::NotDivided);
    assert_eq!(cfg.apb_psc, Prescaler::NotDivided);
    assert!(freqs.sysclk.is_exactly(16_000_000));
}

#[test]
fn precise_requirement_pins_the_clock() {
    let (cfg, freqs) = ClockRequirements::new()
        .sysclk(FreqReq::precise(Hertz(48_000_000)))
        .resolve(false)
        .unwrap();
    assert!(freqs.sysclk.is_exactly(48_000_000));
    assert!(matches!(cfg.sys_mux, SysClockSrc::PLL));
    assert_eq!(cfg.pll_cfg.m, 1);
    assert_eq!(cfg.pll_cfg.n, 12);
    assert_eq!(cfg.pll_cfg.r, 4);
}

#[test]
fn determinism_same_inputs_same_output() {
    let build = || {
        ClockRequirements::new()
            .hse(Hertz(24_000_000))
            .sysclk(FreqReq::new(Hertz(170_000_000)))
            .resolve(false)
            .unwrap()
    };
    let (cfg1, freqs1) = build();
    let (cfg2, freqs2) = build();
    assert_eq!(cfg1, cfg2);
    assert_eq!(freqs1, freqs2);
}

#[test]
fn bypass_oscillator_reaches_pll_mux() {
    let (cfg, _freqs) = ClockRequirements::new()
        .hse_bypass(Hertz(24_000_000))
        .sysclk(FreqReq::new(Hertz(170_000_000)))
        .resolve(false)
        .unwrap();
    assert_eq!(
        cfg.pll_cfg.mux,
        clock_tree::types::PLLSrc::HSEBypass(Hertz(24_000_000))
    );
}

#[test]
fn oscillator_sourced_sysclk_wins_when_exact() {
    // A 24 MHz target is hit exactly by the oscillator itself, and the
    // direct mux choice precedes the PLL choice in enumeration order.
    let (cfg, freqs) = ClockRequirements::new()
        .hse(Hertz(24_000_000))
        .sysclk(FreqReq::new(Hertz(24_000_000)))
        .resolve(false)
        .unwrap();
    assert!(matches!(cfg.sys_mux, SysClockSrc::HSE(Hertz(24_000_000))));
    assert_eq!(cfg.pll_cfg.m, 2);
    assert_eq!(cfg.pll_cfg.n, 8);
    assert!(freqs.sysclk.is_exactly(24_000_000));
    assert_eq!(cfg.ahb_psc, Prescaler::NotDivided);
}

#[test]
fn describe_errors() {
    let e = ClockError::NoClockFound("no clock found".to_string());
    assert_eq!(e.describe(), "requirements cannot be fulfilled: no clock found");
    let e = ClockError::BadRequirements("oscillator too fast".to_string());
    assert_eq!(
        e.describe(),
        "requirements are outside of hardware capabilities: oscillator too fast"
    );
}
