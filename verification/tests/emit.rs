use clock_tree::emit::u32_dec;
use clock_tree::rate::{Hertz, Rate};
use clock_tree::types::{Config, PLLSrc, PllConfig, Prescaler, SysClockSrc};

#[test]
fn decimal_rendering() {
    assert_eq!(u32_dec(0), "0");
    assert_eq!(u32_dec(7), "7");
    assert_eq!(u32_dec(48), "48");
    assert_eq!(u32_dec(16_000_000), "16000000");
    assert_eq!(u32_dec(u32::MAX), "4294967295");
}

#[test]
fn prescaler_code() {
    assert_eq!(Prescaler::NotDivided.write_code(), "Prescaler::NotDivided");
    assert_eq!(Prescaler::Div2.write_code(), "Prescaler::Div2");
    assert_eq!(Prescaler::Div512.write_code(), "Prescaler::Div512");
}

#[test]
fn source_code_variants() {
    assert_eq!(SysClockSrc::PLL.write_code(), "SysClockSrc::PLL");
    assert_eq!(SysClockSrc::HSI.write_code(), "SysClockSrc::HSI");
    assert_eq!(
        SysClockSrc::HSE(Hertz(24_000_000)).write_code(),
        "SysClockSrc::HSE(Hertz(24000000))"
    );
    assert_eq!(PLLSrc::HSI.write_code(), "PLLSrc::HSI");
    assert_eq!(
        PLLSrc::HSE(Hertz(24_000_000)).write_code(),
        "PLLSrc::HSE(Hertz(24000000))"
    );
    assert_eq!(
        PLLSrc::HSEBypass(Hertz(8_000_000)).write_code(),
        "PLLSrc::HSE_BYPASS(Hertz(8000000))"
    );
}

#[test]
fn full_config_code() {
    let cfg = Config {
        sys_mux: SysClockSrc::PLL,
        pll_cfg: PllConfig {
            mux: PLLSrc::HSI,
            m: 1,
            n: 12,
            r: 4,
            q: Some(2),
            p: None,
        },
        ahb_psc: Prescaler::NotDivided,
        apb_psc: Prescaler::Div2,
    };
    let expected = "Config::new()\n.clock_src(SysClockSrc::PLL)\n.pll_cfg(ClockConfig {\nmux: \
                    PLLSrc::HSI,\nm: 1,\nn: 12,\nr: 4,\nq: Some(2),\np: None,\n}\n)\n.ahb_psc(\
                    Prescaler::NotDivided)\napb_psc(Prescaler::Div2)\n";
    assert_eq!(cfg.write_code(), expected);
}

#[test]
fn rate_arithmetic() {
    let r = Rate { num: 192_000_000, den: 4 };
    assert_eq!(r.floor_hz(), 48_000_000);
    assert!(r.is_exactly(48_000_000));
    assert!(!r.is_exactly(48_000_001));
    let third = Rate { num: 100, den: 3 };
    assert_eq!(third.floor_hz(), 33);
    assert!(!third.is_exactly(33));
}
