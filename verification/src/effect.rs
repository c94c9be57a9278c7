use vstd::prelude::*;

use crate::color::{gamma_rgb, Rgb8};
use crate::hsv::{spec_hsv_rgb, Hsv};

verus! {

/// The geometry of one strip: how many pixels it drives and whether the
/// pixel order is reversed.
#[derive(Debug, Clone, Copy, PartialEq, Eq, Structural)]
pub struct StripInfo {
    pub leds: usize,
    pub rev: bool,
}

impl StripInfo {
    pub fn empty() -> (s: Self)
        ensures
            s == (StripInfo { leds: 0usize, rev: false }),
    {
        Self { leds: 0, rev: false }
    }
}

/// An effect renders a full pixel buffer from strip geometry and elapsed
/// time alone: it carries no state beyond its construction-time parameters,
/// and `update` must assign every pixel of the strip, to exactly the value
/// `pixel` names.
pub trait EffectMode {
    /// Whether the effect's construction-time configuration is usable.
    spec fn wf(&self) -> bool;

    /// What the effect writes at pixel `i` at time `time` (milliseconds).
    spec fn pixel(&self, i: int, time: u64) -> Rgb8;

    fn update(&self, info: &StripInfo, buf: &mut Vec<Rgb8>, time: u64)
        requires
            old(buf).len() >= info.leds,
            self.wf(),
        ensures
            final(buf).len() == old(buf).len(),
            forall|i: int| 0 <= i < info.leds ==> final(buf)[i] == self.pixel(i, time),
            forall|i: int|
                info.leds <= i < final(buf).len() ==> final(buf)[i] == old(buf)[i],
    ;
}

/// A hue wheel that rotates along the strip and over time. Angles are held
/// in millidegrees: `mdeg_per_px` is how much the hue falls from one pixel to
/// the next, `mdeg_per_sec` how much it grows per second.
#[derive(Debug, Clone, Copy, PartialEq, Eq, Structural)]
pub struct ColorWheel {
    pub saturation: u8,
    pub value: u8,
    pub mdeg_per_px: u32,
    pub mdeg_per_sec: u32,
}

impl Default for ColorWheel {
    /// Full saturation and value, one turn across 500 pixels, 30 degrees
    /// per second.
    fn default() -> (s: Self)
        ensures
            s == (ColorWheel {
                saturation: 255u8,
                value: 255u8,
                mdeg_per_px: 720u32,
                mdeg_per_sec: 30000u32,
            }),
    {
        Self { saturation: 255, value: 255, mdeg_per_px: 720, mdeg_per_sec: 30000 }
    }
}

/// The wheel's hue at pixel `i` and time `time` (milliseconds): the elapsed
/// seconds scaled by the speed, minus the pixel offset, wrapped to a turn.
pub open spec fn wheel_hue(w: ColorWheel, i: int, time: u64) -> int {
    let t = (time as int) * (w.mdeg_per_sec as int) / 1000 % 360000;
    let p = i * (w.mdeg_per_px as int) % 360000;
    (t + 360000 - p) % 360000
}

/// The wheel's pixel: the hue at full wrap, converted to RGB and
/// gamma-corrected.
pub open spec fn wheel_pixel(w: ColorWheel, i: int, time: u64) -> Rgb8 {
    gamma_rgb(spec_hsv_rgb(wheel_hue(w, i, time) as u32, w.saturation, w.value))
}

impl ColorWheel {
    /// Render the wheel into the first `info.leds` pixels of `buf`.
    pub fn render(&self, info: &StripInfo, buf: &mut Vec<Rgb8>, time: u64)
        requires
            old(buf).len() >= info.leds,
        ensures
            final(buf).len() == old(buf).len(),
            forall|i: int| 0 <= i < info.leds ==> final(buf)[i] == wheel_pixel(*self, i, time),
            forall|i: int|
                info.leds <= i < final(buf).len() ==> final(buf)[i] == old(buf)[i],
    {
        proof {
            lemma_mul_bound_u128(time as int, self.mdeg_per_sec as int);
        }
        let t: u32 = ((time as u128) * (self.mdeg_per_sec as u128) / 1000 % 360000) as u32;
        let mut i: usize = 0;
        while i < info.leds
            invariant
                i <= info.leds <= buf.len(),
                buf.len() == old(buf).len(),
                t == (time as int) * (self.mdeg_per_sec as int) / 1000 % 360000,
                forall|j: int| 0 <= j < i ==> buf[j] == wheel_pixel(*self, j, time),
                forall|j: int| i <= j < buf.len() ==> buf[j] == old(buf)[j],
            decreases info.leds - i,
        {
            proof {
                lemma_mul_bound_u128(i as int, self.mdeg_per_px as int);
            }
            let p: u32 = ((i as u128) * (self.mdeg_per_px as u128) % 360000) as u32;
            let hue: u32 = (t + 360000 - p) % 360000;
            let px = Hsv { hue_mdeg: hue, saturation: self.saturation, value: self.value }
                .to_rgb()
                .gamma_correct();
            buf[i] = px;
            i = i + 1;
        }
    }
}

impl EffectMode for ColorWheel {
    open spec fn wf(&self) -> bool {
        true
    }

    open spec fn pixel(&self, i: int, time: u64) -> Rgb8 {
        wheel_pixel(*self, i, time)
    }

    fn update(&self, info: &StripInfo, buf: &mut Vec<Rgb8>, time: u64) {
        self.render(info, buf, time)
    }
}

/// A repeating palette that slides along the strip over time. The speed is
/// held in thousandths of a full palette cycle per second.
#[derive(Debug, Clone)]
pub struct ColorPattern {
    pub colors: Vec<Rgb8>,
    pub speed_permille: u32,
}

/// How many palette steps the pattern has slid after `time` milliseconds:
/// the floor of `seconds * speed * palette length`.
pub open spec fn pattern_shift(speed_permille: u32, n: int, time: u64) -> int {
    (time as int) * (speed_permille as int) * n / 1000000
}

/// The pattern's pixel `i` under a slide of `shift` steps: palette entry
/// `(i - shift) mod n`, gamma-corrected.
pub open spec fn pattern_pixel(colors: Seq<Rgb8>, shift: int, i: int) -> Rgb8 {
    gamma_rgb(colors[(i - shift) % (colors.len() as int)])
}

impl ColorPattern {
    /// Render the pattern into the first `info.leds` pixels of `buf`.
    pub fn render(&self, info: &StripInfo, buf: &mut Vec<Rgb8>, time: u64)
        requires
            old(buf).len() >= info.leds,
            0 < self.colors.len() <= 0xffff_ffff,
        ensures
            final(buf).len() == old(buf).len(),
            forall|i: int|
                0 <= i < info.leds ==> final(buf)[i] == pattern_pixel(
                    self.colors@,
                    pattern_shift(self.speed_permille, self.colors.len() as int, time),
                    i,
                ),
            forall|i: int|
                info.leds <= i < final(buf).len() ==> final(buf)[i] == old(buf)[i],
    {
        let n: usize = self.colors.len();
        let ghost shift = pattern_shift(self.speed_permille, n as int, time);
        proof {
            lemma_mul_bound_u128(time as int, self.speed_permille as int);
            lemma_mul3_bound_u128(time as int, self.speed_permille as int, n as int);
        }
        let smod: usize = (((time as u128) * (self.speed_permille as u128) * (n as u128)
            / 1000000) % (n as u128)) as usize;
        proof {
            vstd::arithmetic::div_mod::lemma_mod_bound(shift, n as int);
        }
        let mut i: usize = 0;
        while i < info.leds
            invariant
                i <= info.leds <= buf.len(),
                buf.len() == old(buf).len(),
                n == self.colors.len(),
                n > 0,
                smod == shift % (n as int),
                shift == pattern_shift(self.speed_permille, n as int, time),
                0 <= smod < n,
                forall|j: int| 0 <= j < i ==> buf[j] == pattern_pixel(self.colors@, shift, j),
                forall|j: int| i <= j < buf.len() ==> buf[j] == old(buf)[j],
            decreases info.leds - i,
        {
            let base: usize = i % n;
            let idx: usize = if base >= smod {
                base - smod
            } else {
                base + (n - smod)
            };
            proof {
                lemma_wrap_index(i as int, shift, n as int);
            }
            let px = self.colors[idx].gamma_correct();
            buf[i] = px;
            i = i + 1;
        }
    }
}

impl EffectMode for ColorPattern {
    /// The palette must be nonempty (the slide wraps modulo its length) and
    /// fit the index arithmetic.
    open spec fn wf(&self) -> bool {
        0 < self.colors.len() <= 0xffff_ffff
    }

    open spec fn pixel(&self, i: int, time: u64) -> Rgb8 {
        pattern_pixel(
            self.colors@,
            pattern_shift(self.speed_permille, self.colors.len() as int, time),
            i,
        )
    }

    fn update(&self, info: &StripInfo, buf: &mut Vec<Rgb8>, time: u64) {
        self.render(info, buf, time)
    }
}

/// Wrapping backward indexing: the pixel index minus the slide, wrapped into
/// the palette, equals the two-step reduction that the renderer computes.
proof fn lemma_wrap_index(i: int, shift: int, n: int)
    requires
        n > 0,
        0 <= i,
        0 <= shift,
    ensures
        0 <= (i - shift) % n < n,
        (i - shift) % n == if i % n >= shift % n {
            i % n - shift % n
        } else {
            i % n + n - shift % n
        },
{
    vstd::arithmetic::div_mod::lemma_mod_bound(i - shift, n);
    vstd::arithmetic::div_mod::lemma_mod_bound(i, n);
    vstd::arithmetic::div_mod::lemma_mod_bound(shift, n);
    vstd::arithmetic::div_mod::lemma_sub_mod_noop(i, shift, n);
    if i % n >= shift % n {
        vstd::arithmetic::div_mod::lemma_small_mod((i % n - shift % n) as nat, n as nat);
    } else {
        vstd::arithmetic::div_mod::lemma_mod_add_multiples_vanish(i % n - shift % n, n);
        vstd::arithmetic::div_mod::lemma_small_mod((i % n + n - shift % n) as nat, n as nat);
    }
}

/// The product of a 64-bit and a 32-bit quantity stays well under the 128-bit
/// ceiling.
proof fn lemma_mul_bound_u128(x: int, y: int)
    requires
        0 <= x < 0x1_0000_0000_0000_0000,
        0 <= y < 0x1_0000_0000,
    ensures
        0 <= x * y < 0x1_0000_0000_0000_0000_0000_0000,
{
    assert(0 <= x * y < 0x1_0000_0000_0000_0000_0000_0000) by (nonlinear_arith)
        requires
            0 <= x < 0x1_0000_0000_0000_0000 && 0 <= y < 0x1_0000_0000,
    ;
}

/// A 64-bit quantity times two 32-bit quantities stays under the 128-bit
/// ceiling.
proof fn lemma_mul3_bound_u128(x: int, y: int, z: int)
    requires
        0 <= x < 0x1_0000_0000_0000_0000,
        0 <= y < 0x1_0000_0000,
        0 <= z <= 0xffff_ffff,
    ensures
        0 <= x * y * z < 0x1_0000_0000_0000_0000_0000_0000_0000_0000,
{
    assert(0 <= x * y * z < 0x1_0000_0000_0000_0000_0000_0000_0000_0000) by (nonlinear_arith)
        requires
            0 <= x < 0x1_0000_0000_0000_0000 && 0 <= y < 0x1_0000_0000 && 0 <= z
                <= 0xffff_ffff,
    ;
}

/// A single lit pixel on a black strip.
#[derive(Debug, Clone, Copy, PartialEq, Eq, Structural)]
pub struct Bounce {
    pub color: Rgb8,
}

impl Bounce {
    /// Render the bounce with the lit pixel at `pos`: every pixel black but
    /// that one. The position comes from the caller, who derives it from the
    /// elapsed time.
    pub fn render_at(&self, info: &StripInfo, buf: &mut Vec<Rgb8>, pos: usize)
        requires
            old(buf).len() >= info.leds,
        ensures
            final(buf).len() == old(buf).len(),
            forall|i: int|
                0 <= i < info.leds ==> final(buf)[i] == if i == pos {
                    self.color
                } else {
                    Rgb8 { r: 0u8, g: 0u8, b: 0u8 }
                },
            forall|i: int|
                info.leds <= i < final(buf).len() ==> final(buf)[i] == old(buf)[i],
    {
        let mut i: usize = 0;
        while i < info.leds
            invariant
                i <= info.leds <= buf.len(),
                buf.len() == old(buf).len(),
                forall|j: int|
                    0 <= j < i ==> buf[j] == if j == pos {
                        self.color
                    } else {
                        Rgb8 { r: 0u8, g: 0u8, b: 0u8 }
                    },
                forall|j: int| i <= j < buf.len() ==> buf[j] == old(buf)[j],
            decreases info.leds - i,
        {
            if i == pos {
                buf[i] = self.color;
            } else {
                buf[i] = Rgb8::zero();
            }
            i = i + 1;
        }
    }
}

} // verus!
