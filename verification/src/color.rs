use vstd::prelude::*;

verus! {

/// Gamma correction table: a fixed, monotonically nondecreasing remapping of
/// the 256 byte values that compensates for nonlinear brightness perception.
pub const GAMMA: [u8; 256] = [
    0, 0, 0, 0, 0, 0, 0, 0, 0, 0, 0, 0, 0, 0, 0, 0, 0, 0, 0, 0, 0, 0, 0, 0, 0, 0, 0, 0, 1, 1, 1, 1,
    1, 1, 1, 1, 1, 1, 1, 1, 1, 2, 2, 2, 2, 2, 2, 2, 2, 3, 3, 3, 3, 3, 3, 3, 4, 4, 4, 4, 4, 5, 5, 5,
    5, 6, 6, 6, 6, 7, 7, 7, 7, 8, 8, 8, 9, 9, 9, 10, 10, 10, 11, 11, 11, 12, 12, 13, 13, 13, 14,
    14, 15, 15, 16, 16, 17, 17, 18, 18, 19, 19, 20, 20, 21, 21, 22, 22, 23, 24, 24, 25, 25, 26, 27,
    27, 28, 29, 29, 30, 31, 32, 32, 33, 34, 35, 35, 36, 37, 38, 39, 39, 40, 41, 42, 43, 44, 45, 46,
    47, 48, 49, 50, 50, 51, 52, 54, 55, 56, 57, 58, 59, 60, 61, 62, 63, 64, 66, 67, 68, 69, 70, 72,
    73, 74, 75, 77, 78, 79, 81, 82, 83, 85, 86, 87, 89, 90, 92, 93, 95, 96, 98, 99, 101, 102, 104,
    105, 107, 109, 110, 112, 114, 115, 117, 119, 120, 122, 124, 126, 127, 129, 131, 133, 135, 137,
    138, 140, 142, 144, 146, 148, 150, 152, 154, 156, 158, 160, 162, 164, 167, 169, 171, 173, 175,
    177, 180, 182, 184, 186, 189, 191, 193, 196, 198, 200, 203, 205, 208, 210, 213, 215, 218, 220,
    223, 225, 228, 231, 233, 236, 239, 241, 244, 247, 249, 252, 255,
];

/// 8-bit sRGB color.
#[derive(Debug, Clone, Copy, PartialEq, Eq, Structural, Hash)]
pub struct Rgb8 {
    pub r: u8,
    pub g: u8,
    pub b: u8,
}

/// The gamma-corrected value of one byte channel.
pub open spec fn gamma_of(c: u8) -> u8 {
    GAMMA@[c as int]
}

/// A whole color remapped through the gamma table.
pub open spec fn gamma_rgb(c: Rgb8) -> Rgb8 {
    Rgb8 { r: gamma_of(c.r), g: gamma_of(c.g), b: gamma_of(c.b) }
}

/// Round-to-nearest of `x / den` for nonnegative `x` (ties away from zero).
pub open spec fn round_div(x: int, den: int) -> int {
    (x + den / 2) / den
}

/// `brightness` result for one channel: scale by `num / den`, round to
/// nearest, clamp to the byte range.
pub open spec fn bright_of(c: u8, num: u32, den: u32) -> u8 {
    let v = round_div(c * num, den as int);
    if v > 255 {
        255u8
    } else {
        v as u8
    }
}

impl Rgb8 {
    pub fn new(r: u8, g: u8, b: u8) -> (c: Self)
        ensures
            c == (Rgb8 { r, g, b }),
    {
        Self { r, g, b }
    }

    pub fn gray(x: u8) -> (c: Self)
        ensures
            c == (Rgb8 { r: x, g: x, b: x }),
    {
        Self { r: x, g: x, b: x }
    }

    pub fn zero() -> (c: Self)
        ensures
            c == (Rgb8 { r: 0u8, g: 0u8, b: 0u8 }),
    {
        Self { r: 0, g: 0, b: 0 }
    }

    /// Remap every channel through the gamma table.
    pub fn gamma_correct(self) -> (c: Self)
        ensures
            c == gamma_rgb(self),
    {
        Self { r: gamma_lookup(self.r), g: gamma_lookup(self.g), b: gamma_lookup(self.b) }
    }

    /// Channelwise sum, each channel clamped at the top of the range.
    pub fn saturating_add(self, rhs: Self) -> (c: Self)
        ensures
            c.r == add_clamped(self.r, rhs.r),
            c.g == add_clamped(self.g, rhs.g),
            c.b == add_clamped(self.b, rhs.b),
    {
        Self {
            r: add_channel(self.r, rhs.r),
            g: add_channel(self.g, rhs.g),
            b: add_channel(self.b, rhs.b),
        }
    }

    /// Channelwise difference, each channel clamped at zero.
    pub fn saturating_sub(self, rhs: Self) -> (c: Self)
        ensures
            c.r == sub_clamped(self.r, rhs.r),
            c.g == sub_clamped(self.g, rhs.g),
            c.b == sub_clamped(self.b, rhs.b),
    {
        Self {
            r: sub_channel(self.r, rhs.r),
            g: sub_channel(self.g, rhs.g),
            b: sub_channel(self.b, rhs.b),
        }
    }

    /// Channelwise product, each channel read as a fraction of 255 and the
    /// product rounded to nearest.
    pub fn mul_channels(self, rhs: Self) -> (c: Self)
        ensures
            c.r == mul_fraction(self.r, rhs.r),
            c.g == mul_fraction(self.g, rhs.g),
            c.b == mul_fraction(self.b, rhs.b),
    {
        Self {
            r: crate::rgba::premul_channel(self.r, rhs.r),
            g: crate::rgba::premul_channel(self.g, rhs.g),
            b: crate::rgba::premul_channel(self.b, rhs.b),
        }
    }

    /// Linear interpolation from `self` toward `other` by the fraction
    /// `num / den`, channel by channel.
    pub fn lerp(self, other: Self, num: u32, den: u32) -> (c: Self)
        requires
            0 < den,
            num <= den,
        ensures
            c.r == lerp_of(self.r, other.r, num, den),
            c.g == lerp_of(self.g, other.g, num, den),
            c.b == lerp_of(self.b, other.b, num, den),
    {
        Self {
            r: lerp_channel(self.r, other.r, num, den),
            g: lerp_channel(self.g, other.g, num, den),
            b: lerp_channel(self.b, other.b, num, den),
        }
    }

    /// Scale every channel by the ratio `num / den`, rounding to nearest and
    /// clamping to the byte range.
    pub fn brightness(self, num: u32, den: u32) -> (c: Self)
        requires
            den > 0,
        ensures
            c.r == bright_of(self.r, num, den),
            c.g == bright_of(self.g, num, den),
            c.b == bright_of(self.b, num, den),
    {
        Self {
            r: bright_channel(self.r, num, den),
            g: bright_channel(self.g, num, den),
            b: bright_channel(self.b, num, den),
        }
    }
}

/// One channel of a channelwise sum: clamped at the top of the range, which
/// is the `<= 1` clamp read over byte fractions.
pub open spec fn add_clamped(a: u8, b: u8) -> u8 {
    if a + b > 255 {
        255u8
    } else {
        (a + b) as u8
    }
}

/// One channel of a channelwise difference: clamped at zero.
pub open spec fn sub_clamped(a: u8, b: u8) -> u8 {
    if a < b {
        0u8
    } else {
        (a - b) as u8
    }
}

/// One channel of a channelwise product of byte fractions: `a * b / 255`,
/// rounded to nearest.
pub open spec fn mul_fraction(a: u8, b: u8) -> int {
    crate::rgba::round255(a * b)
}

/// One channel interpolated from `a` toward `b` by the fraction
/// `num / den`, rounded to nearest.
pub open spec fn lerp_of(a: u8, b: u8, num: u32, den: u32) -> int {
    round_div(a * ((den - num) as int) + b * num, den as int)
}

/// A color whose channels can be remapped one by one: each channel of the
/// result is a value the closure may return for the matching input channel.
pub trait MapColor: Copy {
    type Component;

    /// The channels, in a fixed order.
    spec fn components(self) -> Seq<Self::Component>;

    fn map<F: Fn(Self::Component) -> Self::Component>(self, f: F) -> (r: Self)
        requires
            forall|x: Self::Component| #[trigger] f.requires((x,)),
        ensures
            r.components().len() == self.components().len(),
            forall|i: int|
                0 <= i < self.components().len() ==> f.ensures(
                    (self.components()[i],),
                    #[trigger] r.components()[i],
                ),
    ;
}

/// A color that can be combined channelwise with another: each channel of
/// the result is a value the closure may return for the two matching input
/// channels.
pub trait ZipColor: MapColor {
    fn zip<F: Fn(Self::Component, Self::Component) -> Self::Component>(
        self,
        other: Self,
        f: F,
    ) -> (r: Self)
        requires
            forall|x: Self::Component, y: Self::Component| #[trigger] f.requires((x, y)),
            other.components().len() == self.components().len(),
        ensures
            r.components().len() == self.components().len(),
            forall|i: int|
                0 <= i < self.components().len() ==> f.ensures(
                    (self.components()[i], other.components()[i]),
                    #[trigger] r.components()[i],
                ),
    ;
}

impl MapColor for Rgb8 {
    type Component = u8;

    open spec fn components(self) -> Seq<u8> {
        seq![self.r, self.g, self.b]
    }

    fn map<F: Fn(u8) -> u8>(self, f: F) -> (r: Self) {
        let c = Self { r: f(self.r), g: f(self.g), b: f(self.b) };
        proof {
            assert(c.components() =~= seq![c.r, c.g, c.b]);
        }
        c
    }
}

impl ZipColor for Rgb8 {
    fn zip<F: Fn(u8, u8) -> u8>(self, other: Self, f: F) -> (r: Self) {
        let c = Self { r: f(self.r, other.r), g: f(self.g, other.g), b: f(self.b, other.b) };
        proof {
            assert(c.components() =~= seq![c.r, c.g, c.b]);
        }
        c
    }
}

/// Look one byte up in the gamma table.
pub fn gamma_lookup(c: u8) -> (r: u8)
    ensures
        r == gamma_of(c),
{
    GAMMA[c as usize]
}

fn add_channel(a: u8, b: u8) -> (r: u8)
    ensures
        r == add_clamped(a, b),
{
    let v: u16 = a as u16 + b as u16;
    if v > 255 {
        255
    } else {
        v as u8
    }
}

fn sub_channel(a: u8, b: u8) -> (r: u8)
    ensures
        r == sub_clamped(a, b),
{
    if a < b {
        0
    } else {
        a - b
    }
}

fn lerp_channel(a: u8, b: u8, num: u32, den: u32) -> (r: u8)
    requires
        0 < den,
        num <= den,
    ensures
        r == lerp_of(a, b, num, den),
{
    proof {
        lemma_lerp_bounds(a as int, b as int, num as int, den as int);
    }
    let v: u64 = ((a as u64) * ((den - num) as u64) + (b as u64) * (num as u64) + (den as u64)
        / 2) / (den as u64);
    v as u8
}

/// Interpolating between two byte channels stays within the byte range.
proof fn lemma_lerp_bounds(a: int, b: int, num: int, den: int)
    requires
        0 <= a <= 255,
        0 <= b <= 255,
        0 < den,
        0 <= num <= den,
    ensures
        0 <= a * (den - num) + b * num,
        a * (den - num) + b * num <= 255 * den,
        0 <= round_div(a * (den - num) + b * num, den) <= 255,
{
    assert(0 <= a * (den - num) && a * (den - num) <= 255 * (den - num)) by (nonlinear_arith)
        requires
            0 <= a <= 255 && 0 <= den - num,
    ;
    assert(0 <= b * num && b * num <= 255 * num) by (nonlinear_arith)
        requires
            0 <= b <= 255 && 0 <= num,
    ;
    assert(255 * (den - num) + 255 * num == 255 * den) by (nonlinear_arith);
    vstd::arithmetic::div_mod::lemma_div_is_ordered(
        a * (den - num) + b * num + den / 2,
        255 * den + den / 2,
        den,
    );
    vstd::arithmetic::div_mod::lemma_div_multiples_vanish_fancy(255, den / 2, den);
    assert(255 * den == den * 255) by (nonlinear_arith);
    vstd::arithmetic::div_mod::lemma_div_is_ordered(0, a * (den - num) + b * num + den / 2, den);
}

fn bright_channel(c: u8, num: u32, den: u32) -> (r: u8)
    requires
        den > 0,
    ensures
        r == bright_of(c, num, den),
{
    assert((c as u64) * (num as u64) <= 255u64 * 0xffff_ffffu64) by (nonlinear_arith)
        requires
            c <= 255u64 && num <= 0xffff_ffffu64,
    ;
    let v: u64 = ((c as u64) * (num as u64) + (den as u64) / 2) / (den as u64);
    if v > 255 {
        255
    } else {
        v as u8
    }
}

/// The gamma table never maps a larger input below a smaller one: correction
/// preserves the ordering of channel intensities (and, being a byte table, it
/// is closed over the byte range).
pub proof fn lemma_gamma_monotonic(a: u8, b: u8)
    requires
        a <= b,
    ensures
        gamma_of(a) <= gamma_of(b),
        0 <= gamma_of(a) <= 255,
{
    assert(forall|k: int| 0 <= k < 255 ==> #[trigger] GAMMA@[k] <= GAMMA@[k + 1]);
    lemma_step_monotonic(a as int, b as int);
}

proof fn lemma_step_monotonic(i: int, j: int)
    requires
        0 <= i <= j < 256,
        forall|k: int| 0 <= k < 255 ==> #[trigger] GAMMA@[k] <= GAMMA@[k + 1],
    ensures
        GAMMA@[i] <= GAMMA@[j],
    decreases j - i,
{
    if i < j {
        lemma_step_monotonic(i, j - 1);
        assert(GAMMA@[j - 1] <= GAMMA@[j]);
    }
}

} // verus!
