use vstd::prelude::*;

verus! {

/// Pre-multiplied alpha color with byte channels: a channel value `c` stands
/// for the intensity `c / 255`, already scaled by the alpha channel.
#[derive(Debug, Clone, Copy, PartialEq, Eq, Structural)]
pub struct Rgba8 {
    pub r: u8,
    pub g: u8,
    pub b: u8,
    pub a: u8,
}

/// Round-to-nearest of `x / 255` for `x >= 0`. Because `x` is an integer,
/// `x / 255` is never an exact half, so no tie-breaking rule is needed.
pub open spec fn round255(x: int) -> int {
    (x + 127) / 255
}

/// One channel of the premultiplied-over compositing step: the foreground
/// channel plus the background channel scaled by the remaining coverage
/// `(255 - a) / 255`, clamped to the byte ceiling.
pub open spec fn blend_ch(s: int, b: int, a: int) -> int {
    let v = s + round255(b * (255 - a));
    if v > 255 {
        255
    } else {
        v
    }
}

/// The full compositing step `fg over bg`, applied componentwise including
/// the alpha channel.
pub open spec fn spec_blend_over(fg: Rgba8, bg: Rgba8) -> Rgba8 {
    Rgba8 {
        r: blend_ch(fg.r as int, bg.r as int, fg.a as int) as u8,
        g: blend_ch(fg.g as int, bg.g as int, fg.a as int) as u8,
        b: blend_ch(fg.b as int, bg.b as int, fg.a as int) as u8,
        a: blend_ch(fg.a as int, bg.a as int, fg.a as int) as u8,
    }
}

impl Rgba8 {
    /// No color channel may exceed the alpha channel: this is what holds of
    /// every properly premultiplied color.
    pub open spec fn wf(self) -> bool {
        self.r <= self.a && self.g <= self.a && self.b <= self.a
    }

    /// Create a premultiplied color from straight (non-premultiplied)
    /// channels: each color channel is scaled by `a / 255`, rounded to
    /// nearest; the alpha channel is stored as given.
    pub fn new(r: u8, g: u8, b: u8, a: u8) -> (c: Self)
        ensures
            c.r == round255(r * a),
            c.g == round255(g * a),
            c.b == round255(b * a),
            c.a == a,
            c.wf(),
    {
        Self { r: premul_channel(r, a), g: premul_channel(g, a), b: premul_channel(b, a), a }
    }

    /// Store already-premultiplied channels verbatim.
    pub fn new_premultiplied(r: u8, g: u8, b: u8, a: u8) -> (c: Self)
        ensures
            c == (Rgba8 { r, g, b, a }),
    {
        Self { r, g, b, a }
    }

    /// The fully transparent color.
    pub fn zero() -> (c: Self)
        ensures
            c == (Rgba8 { r: 0u8, g: 0u8, b: 0u8, a: 0u8 }),
            c.wf(),
    {
        Self { r: 0, g: 0, b: 0, a: 0 }
    }

    /// Premultiply an opaque-range RGB color with the given alpha.
    pub fn from_rgb(rgb: crate::color::Rgb8, a: u8) -> (c: Self)
        ensures
            c.r == round255(rgb.r * a),
            c.g == round255(rgb.g * a),
            c.b == round255(rgb.b * a),
            c.a == a,
            c.wf(),
    {
        Self::new(rgb.r, rgb.g, rgb.b, a)
    }

    /// An opaque color: channels carried over verbatim, alpha full.
    pub fn opaque(rgb: crate::color::Rgb8) -> (c: Self)
        ensures
            c == (Rgba8 { r: rgb.r, g: rgb.g, b: rgb.b, a: 255u8 }),
            c.wf(),
    {
        Self { r: rgb.r, g: rgb.g, b: rgb.b, a: 255 }
    }

    /// Drop the alpha channel.
    pub fn rgb(self) -> (c: crate::color::Rgb8)
        ensures
            c.r == self.r && c.g == self.g && c.b == self.b,
    {
        crate::color::Rgb8 { r: self.r, g: self.g, b: self.b }
    }

    /// Composite `self` over the background `bg`.
    pub fn blend_over(self, bg: Self) -> (c: Self)
        ensures
            c == spec_blend_over(self, bg),
    {
        Self {
            r: blend_channel(self.r, bg.r, self.a),
            g: blend_channel(self.g, bg.g, self.a),
            b: blend_channel(self.b, bg.b, self.a),
            a: blend_channel(self.a, bg.a, self.a),
        }
    }
}

pub(crate) fn premul_channel(c: u8, a: u8) -> (r: u8)
    ensures
        r == round255(c * a),
        r <= a,
{
    proof {
        assert(c as int * a as int <= 255 * (a as int)) by (nonlinear_arith)
            requires
                c <= 255,
                0 <= a,
        ;
        lemma_round255_le(c as int * a as int, 255 * (a as int));
        lemma_round255_mul(a as int);
    }
    (((c as u32) * (a as u32) + 127) / 255) as u8
}

fn blend_channel(s: u8, b: u8, a: u8) -> (r: u8)
    ensures
        r == blend_ch(s as int, b as int, a as int),
{
    proof {
        assert((b as int) * (255 - a as int) <= 255 * 255) by (nonlinear_arith)
            requires
                b <= 255,
                0 <= 255 - a as int <= 255,
        ;
        assert((b as int) * (255 - a as int) >= 0) by (nonlinear_arith)
            requires
                0 <= b,
                0 <= 255 - a as int,
        ;
        lemma_round255_le((b as int) * (255 - a as int), 255int * 255int);
        lemma_round255_mul(255);
    }
    let scaled: u32 = ((b as u32) * (255 - a as u32) + 127) / 255;
    let v: u32 = s as u32 + scaled;
    if v > 255 {
        255
    } else {
        v as u8
    }
}

/// `x / 255` rounded is monotonic.
proof fn lemma_round255_le(x: int, y: int)
    requires
        x <= y,
    ensures
        round255(x) <= round255(y),
{
    vstd::arithmetic::div_mod::lemma_div_is_ordered(x + 127, y + 127, 255);
}

/// An exact multiple of 255 rounds to the multiplier.
proof fn lemma_round255_mul(k: int)
    ensures
        round255(255 * k) == k,
{
    vstd::arithmetic::div_mod::lemma_div_multiples_vanish_fancy(k, 127, 255);
}

/// An opaque foreground replaces the background entirely.
pub proof fn lemma_blend_opaque(fg: Rgba8, bg: Rgba8)
    requires
        fg.a == 255,
    ensures
        spec_blend_over(fg, bg) == fg,
{
    assert(round255(bg.r * 0) == 0);
    assert(round255(bg.g * 0) == 0);
    assert(round255(bg.b * 0) == 0);
    assert(round255(bg.a * 0) == 0);
}

/// A fully transparent foreground passes the background through unchanged.
pub proof fn lemma_blend_transparent(fg: Rgba8, bg: Rgba8)
    requires
        fg.wf(),
        fg.a == 0,
    ensures
        spec_blend_over(fg, bg) == bg,
{
    lemma_round255_mul(bg.r as int);
    lemma_round255_mul(bg.g as int);
    lemma_round255_mul(bg.b as int);
    lemma_round255_mul(bg.a as int);
    assert(bg.r as int * 255 == 255 * (bg.r as int)) by (nonlinear_arith);
    assert(bg.g as int * 255 == 255 * (bg.g as int)) by (nonlinear_arith);
    assert(bg.b as int * 255 == 255 * (bg.b as int)) by (nonlinear_arith);
    assert(bg.a as int * 255 == 255 * (bg.a as int)) by (nonlinear_arith);
}

/// Compositing two properly premultiplied colors yields a properly
/// premultiplied color, and never hits the byte ceiling.
pub proof fn lemma_blend_preserves_wf(fg: Rgba8, bg: Rgba8)
    requires
        fg.wf(),
        bg.wf(),
    ensures
        spec_blend_over(fg, bg).wf(),
{
    let inv = 255 - fg.a as int;
    assert(bg.r as int * inv <= bg.a as int * inv) by (nonlinear_arith)
        requires
            bg.r <= bg.a,
            0 <= inv,
    ;
    assert(bg.g as int * inv <= bg.a as int * inv) by (nonlinear_arith)
        requires
            bg.g <= bg.a,
            0 <= inv,
    ;
    assert(bg.b as int * inv <= bg.a as int * inv) by (nonlinear_arith)
        requires
            bg.b <= bg.a,
            0 <= inv,
    ;
    assert(bg.a as int * inv <= 255 * inv) by (nonlinear_arith)
        requires
            bg.a <= 255,
            0 <= inv,
    ;
    lemma_round255_le(bg.r as int * inv, bg.a as int * inv);
    lemma_round255_le(bg.g as int * inv, bg.a as int * inv);
    lemma_round255_le(bg.b as int * inv, bg.a as int * inv);
    lemma_round255_le(bg.a as int * inv, 255 * inv);
    lemma_round255_mul(inv);
}

} // verus!
