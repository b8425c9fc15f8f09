use vstd::prelude::*;
use vstd::arithmetic::div_mod::lemma_div_is_strictly_smaller;
use crate::types::{Config, PLLSrc, PllConfig, Prescaler, SysClockSrc};

verus! {

/// The decimal digit character for `d`.
pub open spec fn digit_char(d: int) -> char {
    if d == 0 { '0' }
    else if d == 1 { '1' }
    else if d == 2 { '2' }
    else if d == 3 { '3' }
    else if d == 4 { '4' }
    else if d == 5 { '5' }
    else if d == 6 { '6' }
    else if d == 7 { '7' }
    else if d == 8 { '8' }
    else { '9' }
}

/// The decimal representation of a nonnegative number.
pub open spec fn dec_str(n: int) -> Seq<char>
    decreases n,
{
    if n < 10 {
        seq![digit_char(n)]
    } else {
        dec_str(n / 10).push(digit_char(n % 10))
    }
}

/// One decimal digit as text.
fn digit_str(d: u32) -> (s: &'static str)
    requires
        d < 10,
    ensures
        s@ == seq![digit_char(d as int)],
{
    match d {
        0 => {
            proof {
                reveal_strlit("0");
                assert("0"@ =~= seq![digit_char(0)]);
            }
            "0"
        },
        1 => {
            proof {
                reveal_strlit("1");
                assert("1"@ =~= seq![digit_char(1)]);
            }
            "1"
        },
        2 => {
            proof {
                reveal_strlit("2");
                assert("2"@ =~= seq![digit_char(2)]);
            }
            "2"
        },
        3 => {
            proof {
                reveal_strlit("3");
                assert("3"@ =~= seq![digit_char(3)]);
            }
            "3"
        },
        4 => {
            proof {
                reveal_strlit("4");
                assert("4"@ =~= seq![digit_char(4)]);
            }
            "4"
        },
        5 => {
            proof {
                reveal_strlit("5");
                assert("5"@ =~= seq![digit_char(5)]);
            }
            "5"
        },
        6 => {
            proof {
                reveal_strlit("6");
                assert("6"@ =~= seq![digit_char(6)]);
            }
            "6"
        },
        7 => {
            proof {
                reveal_strlit("7");
                assert("7"@ =~= seq![digit_char(7)]);
            }
            "7"
        },
        8 => {
            proof {
                reveal_strlit("8");
                assert("8"@ =~= seq![digit_char(8)]);
            }
            "8"
        },
        _ => {
            proof {
                reveal_strlit("9");
                assert("9"@ =~= seq![digit_char(9)]);
            }
            "9"
        },
    }
}

/// A number rendered in decimal.
pub fn u32_dec(x: u32) -> (s: String)
    ensures
        s@ == dec_str(x as int),
    decreases x,
{
    if x < 10 {
        digit_str(x).to_owned()
    } else {
        proof {
            lemma_div_is_strictly_smaller(x as int, 10);
        }
        let mut s = u32_dec(x / 10);
        let d = digit_str(x % 10);
        s.append(d);
        proof {
            assert(dec_str(x as int) =~= dec_str(x as int / 10) + seq![
                digit_char(x as int % 10),
            ]);
        }
        s
    }
}

impl Prescaler {
    /// The source text this prescaler renders as.
    pub open spec fn code_str(&self) -> Seq<char> {
        match self {
            Prescaler::NotDivided => "Prescaler::NotDivided"@,
            Prescaler::Div2 => "Prescaler::Div2"@,
            Prescaler::Div4 => "Prescaler::Div4"@,
            Prescaler::Div8 => "Prescaler::Div8"@,
            Prescaler::Div16 => "Prescaler::Div16"@,
            Prescaler::Div32 => "Prescaler::Div32"@,
            Prescaler::Div64 => "Prescaler::Div64"@,
            Prescaler::Div128 => "Prescaler::Div128"@,
            Prescaler::Div256 => "Prescaler::Div256"@,
            Prescaler::Div512 => "Prescaler::Div512"@,
        }
    }

    /// Render this prescaler as source text.
    pub fn write_code(&self) -> (s: String)
        ensures
            s@ == self.code_str(),
    {
        match self {
            Prescaler::NotDivided => "Prescaler::NotDivided".to_owned(),
            Prescaler::Div2 => "Prescaler::Div2".to_owned(),
            Prescaler::Div4 => "Prescaler::Div4".to_owned(),
            Prescaler::Div8 => "Prescaler::Div8".to_owned(),
            Prescaler::Div16 => "Prescaler::Div16".to_owned(),
            Prescaler::Div32 => "Prescaler::Div32".to_owned(),
            Prescaler::Div64 => "Prescaler::Div64".to_owned(),
            Prescaler::Div128 => "Prescaler::Div128".to_owned(),
            Prescaler::Div256 => "Prescaler::Div256".to_owned(),
            Prescaler::Div512 => "Prescaler::Div512".to_owned(),
        }
    }
}

impl SysClockSrc {
    /// The source text this mux choice renders as.
    pub open spec fn code_str(&self) -> Seq<char> {
        match self {
            SysClockSrc::PLL => "SysClockSrc::PLL"@,
            SysClockSrc::HSI => "SysClockSrc::HSI"@,
            SysClockSrc::HSE(f) => "SysClockSrc::HSE(Hertz("@ + dec_str(f.0 as int) + "))"@,
        }
    }

    /// Render this mux choice as source text.
    pub fn write_code(&self) -> (s: String)
        ensures
            s@ == self.code_str(),
    {
        match self {
            SysClockSrc::PLL => "SysClockSrc::PLL".to_owned(),
            SysClockSrc::HSI => "SysClockSrc::HSI".to_owned(),
            SysClockSrc::HSE(f) => {
                let mut s = "SysClockSrc::HSE(Hertz(".to_owned();
                let d = u32_dec(f.0);
                s.append(d.as_str());
                s.append("))");
                s
            },
        }
    }
}

impl PLLSrc {
    /// The source text this PLL input choice renders as.
    pub open spec fn code_str(&self) -> Seq<char> {
        match self {
            PLLSrc::HSI => "PLLSrc::HSI"@,
            PLLSrc::HSE(f) => "PLLSrc::HSE(Hertz("@ + dec_str(f.0 as int) + "))"@,
            PLLSrc::HSEBypass(f) => "PLLSrc::HSE_BYPASS(Hertz("@ + dec_str(f.0 as int) + "))"@,
        }
    }

    /// Render this PLL input choice as source text.
    pub fn write_code(&self) -> (s: String)
        ensures
            s@ == self.code_str(),
    {
        match self {
            PLLSrc::HSI => "PLLSrc::HSI".to_owned(),
            PLLSrc::HSE(f) => {
                let mut s = "PLLSrc::HSE(Hertz(".to_owned();
                let d = u32_dec(f.0);
                s.append(d.as_str());
                s.append("))");
                s
            },
            PLLSrc::HSEBypass(f) => {
                let mut s = "PLLSrc::HSE_BYPASS(Hertz(".to_owned();
                let d = u32_dec(f.0);
                s.append(d.as_str());
                s.append("))");
                s
            },
        }
    }
}

/// The debug-style rendering of an optional divider.
pub open spec fn opt_div_str(o: Option<u8>) -> Seq<char> {
    match o {
        None => "None"@,
        Some(d) => "Some("@ + dec_str(d as int) + ")"@,
    }
}

/// Render an optional divider in debug style.
fn opt_div_code(o: &Option<u8>) -> (s: String)
    ensures
        s@ == opt_div_str(*o),
{
    match o {
        None => "None".to_owned(),
        Some(d) => {
            let mut s = "Some(".to_owned();
            let t = u32_dec(*d as u32);
            s.append(t.as_str());
            s.append(")");
            s
        },
    }
}

impl PllConfig {
    /// The source text this PLL configuration renders as.
    pub open spec fn code_str(&self) -> Seq<char> {
        "ClockConfig {\nmux: "@ + self.mux.code_str() + ",\nm: "@ + dec_str(self.m as int)
            + ",\nn: "@ + dec_str(self.n as int) + ",\nr: "@ + dec_str(self.r as int) + ",\nq: "@
            + opt_div_str(self.q) + ",\np: "@ + opt_div_str(self.p) + ",\n}\n"@
    }

    /// Render this PLL configuration as source text.
    pub fn write_code(&self) -> (s: String)
        ensures
            s@ == self.code_str(),
    {
        let mut s = "ClockConfig {\nmux: ".to_owned();
        let mux = self.mux.write_code();
        s.append(mux.as_str());
        s.append(",\nm: ");
        let m = u32_dec(self.m as u32);
        s.append(m.as_str());
        s.append(",\nn: ");
        let n = u32_dec(self.n as u32);
        s.append(n.as_str());
        s.append(",\nr: ");
        let r = u32_dec(self.r as u32);
        s.append(r.as_str());
        s.append(",\nq: ");
        let q = opt_div_code(&self.q);
        s.append(q.as_str());
        s.append(",\np: ");
        let p = opt_div_code(&self.p);
        s.append(p.as_str());
        s.append(",\n}\n");
        s
    }
}

impl Config {
    /// The source text this configuration renders as.
    pub open spec fn code_str(&self) -> Seq<char> {
        "Config::new()\n.clock_src("@ + self.sys_mux.code_str() + ")\n.pll_cfg("@
            + self.pll_cfg.code_str() + ")\n.ahb_psc("@ + self.ahb_psc.code_str()
            + ")\napb_psc("@ + self.apb_psc.code_str() + ")\n"@
    }

    /// Render this configuration as the builder-style source text a code
    /// emitter consumes.
    pub fn write_code(&self) -> (s: String)
        ensures
            s@ == self.code_str(),
    {
        let mut s = "Config::new()\n.clock_src(".to_owned();
        let mux = self.sys_mux.write_code();
        s.append(mux.as_str());
        s.append(")\n.pll_cfg(");
        let pll = self.pll_cfg.write_code();
        s.append(pll.as_str());
        s.append(")\n.ahb_psc(");
        let ahb = self.ahb_psc.write_code();
        s.append(ahb.as_str());
        s.append(")\napb_psc(");
        let apb = self.apb_psc.write_code();
        s.append(apb.as_str());
        s.append(")\n");
        s
    }
}

} // verus!
