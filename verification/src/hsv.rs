use vstd::prelude::*;

use crate::color::Rgb8;
use crate::rgba::round255;

verus! {

/// Hue-saturation-value color. The hue is held in millidegrees and wraps
/// modulo a full turn; saturation and value are byte fractions of one.
#[derive(Debug, Clone, Copy, PartialEq, Eq, Structural)]
pub struct Hsv {
    /// Hue in millidegrees; any value is allowed and wraps modulo 360 000.
    pub hue_mdeg: u32,
    /// Saturation as a fraction of 255.
    pub saturation: u8,
    /// Value as a fraction of 255.
    pub value: u8,
}

/// Millidegrees in a full hue turn.
pub const FULL_TURN_MDEG: u32 = 360000;

/// The chroma `v * s`, both read as fractions of 255, rounded to nearest.
pub open spec fn chroma(s: u8, v: u8) -> int {
    round255(s * v)
}

/// The secondary component `c * (1 - |(h / 60 deg) mod 2 - 1|)` of the
/// six-sector HSV conversion, with `h` in millidegrees, rounded to nearest.
pub open spec fn hsv_x(h: int, c: int) -> int {
    let pos = h % 120000;
    let d = if pos >= 60000 {
        pos - 60000
    } else {
        60000 - pos
    };
    (c * (60000 - d) + 30000) / 60000
}

/// The standard six-sector HSV to RGB conversion, over byte channels.
/// Saturation zero short-circuits to gray without reading the hue.
pub open spec fn spec_hsv_rgb(hue_mdeg: u32, s: u8, v: u8) -> Rgb8 {
    if s == 0 {
        Rgb8 { r: v, g: v, b: v }
    } else {
        let h = (hue_mdeg as int) % 360000;
        let c = chroma(s, v);
        let x = hsv_x(h, c);
        let m = v - c;
        let sector = h / 60000;
        if sector == 0 {
            Rgb8 { r: (c + m) as u8, g: (x + m) as u8, b: m as u8 }
        } else if sector == 1 {
            Rgb8 { r: (x + m) as u8, g: (c + m) as u8, b: m as u8 }
        } else if sector == 2 {
            Rgb8 { r: m as u8, g: (c + m) as u8, b: (x + m) as u8 }
        } else if sector == 3 {
            Rgb8 { r: m as u8, g: (x + m) as u8, b: (c + m) as u8 }
        } else if sector == 4 {
            Rgb8 { r: (x + m) as u8, g: m as u8, b: (c + m) as u8 }
        } else {
            Rgb8 { r: (c + m) as u8, g: m as u8, b: (x + m) as u8 }
        }
    }
}

impl Hsv {
    pub fn new(hue_mdeg: u32, saturation: u8, value: u8) -> (h: Self)
        ensures
            h == (Hsv { hue_mdeg, saturation, value }),
    {
        Self { hue_mdeg, saturation, value }
    }

    pub fn zero() -> (h: Self)
        ensures
            h == (Hsv { hue_mdeg: 0u32, saturation: 0u8, value: 0u8 }),
    {
        Self { hue_mdeg: 0, saturation: 0, value: 0 }
    }

    /// Convert to RGB by the six-sector algorithm.
    pub fn to_rgb(self) -> (out: Rgb8)
        ensures
            out == spec_hsv_rgb(self.hue_mdeg, self.saturation, self.value),
    {
        let s = self.saturation;
        let v = self.value;
        if s == 0 {
            return Rgb8 { r: v, g: v, b: v };
        }
        let h: u32 = self.hue_mdeg % 360000;
        let c: u8 = crate::rgba::premul_channel(s, v);
        let pos: u32 = h % 120000;
        let d: u32 = if pos >= 60000 {
            pos - 60000
        } else {
            60000 - pos
        };
        proof {
            lemma_x_le_c(c as int, d as int);
        }
        let x: u8 = (((c as u64) * ((60000 - d) as u64) + 30000) / 60000) as u8;
        let m: u8 = v - c;
        let sector: u32 = h / 60000;
        if sector == 0 {
            Rgb8 { r: c + m, g: x + m, b: m }
        } else if sector == 1 {
            Rgb8 { r: x + m, g: c + m, b: m }
        } else if sector == 2 {
            Rgb8 { r: m, g: c + m, b: x + m }
        } else if sector == 3 {
            Rgb8 { r: m, g: x + m, b: c + m }
        } else if sector == 4 {
            Rgb8 { r: x + m, g: m, b: c + m }
        } else {
            Rgb8 { r: c + m, g: m, b: x + m }
        }
    }
}

/// The secondary component never exceeds the chroma.
proof fn lemma_x_le_c(c: int, d: int)
    requires
        0 <= c <= 255,
        0 <= d <= 60000,
    ensures
        0 <= (c * (60000 - d) + 30000) / 60000 <= c,
{
    assert(0 <= c * (60000 - d) <= c * 60000) by (nonlinear_arith)
        requires
            0 <= c && 0 <= d <= 60000,
    ;
    vstd::arithmetic::div_mod::lemma_div_is_ordered(
        c * (60000 - d) + 30000,
        c * 60000 + 30000,
        60000,
    );
    vstd::arithmetic::div_mod::lemma_div_multiples_vanish_fancy(c, 30000, 60000);
    assert(c * 60000 == 60000 * c) by (nonlinear_arith);
    vstd::arithmetic::div_mod::lemma_div_is_ordered(0, c * (60000 - d) + 30000, 60000);
}

/// With saturation zero the conversion is gray at the value channel, whatever
/// the hue.
pub proof fn lemma_hsv_gray(hue_mdeg: u32, v: u8)
    ensures
        spec_hsv_rgb(hue_mdeg, 0, v) == (Rgb8 { r: v, g: v, b: v }),
{
}

} // verus!
