use vstd::prelude::*;

use crate::color::Rgb8;
use crate::strip::MAX_STRIP_LEN;

verus! {

/// One timing symbol on the single-wire bus: two levels, each held for a
/// number of peripheral clock ticks.
#[derive(Debug, Clone, Copy, PartialEq, Eq, Structural)]
pub struct PulseCode {
    pub level1: bool,
    pub length1: u16,
    pub level2: bool,
    pub length2: u16,
}

/// The all-zero symbol that ends a transmission.
pub open spec fn end_marker() -> PulseCode {
    PulseCode { level1: false, length1: 0u16, level2: false, length2: 0u16 }
}

impl PulseCode {
    pub fn new(level1: bool, length1: u16, level2: bool, length2: u16) -> (p: Self)
        ensures
            p == (PulseCode { level1, length1, level2, length2 }),
    {
        Self { level1, length1, level2, length2 }
    }

    pub fn end_marker() -> (p: Self)
        ensures
            p == end_marker(),
    {
        Self { level1: false, length1: 0, level2: false, length2: 0 }
    }
}

/// The WS2812B single-wire protocol: its two bit symbols, its latch time,
/// and how bytes and colors are laid out on the wire.
#[derive(Debug, Clone, Copy, PartialEq, Eq, Structural)]
pub struct Ws2812b;

/// A zero bit: a short high pulse, then low for the rest of the bit window
/// (0.35 us high, 0.8 us low at 80 MHz).
pub open spec fn ws_lo() -> PulseCode {
    PulseCode { level1: true, length1: 28u16, level2: false, length2: 64u16 }
}

/// A one bit: a long high pulse, then a shorter low (0.7 us high, 0.6 us low
/// at 80 MHz).
pub open spec fn ws_hi() -> PulseCode {
    PulseCode { level1: true, length1: 56u16, level2: false, length2: 48u16 }
}

/// How long the wire must stay idle after a transmission before the strip
/// latches the new colors, in microseconds.
pub const WS_LATCH_MICROS: u64 = 300;

/// The symbol for bit `i` of a byte, most significant bit first.
pub open spec fn bit_symbol(byte: u8, i: int) -> PulseCode {
    if (byte >> (7 - i) as u8) & 1u8 == 1u8 {
        ws_hi()
    } else {
        ws_lo()
    }
}

/// The eight symbols of one byte, most significant bit first.
pub open spec fn byte_symbols(byte: u8) -> Seq<PulseCode> {
    Seq::new(8, |i: int| bit_symbol(byte, i))
}

/// The 24 symbols of one color in the protocol's wire order: green, red,
/// blue.
pub open spec fn color_symbols(c: Rgb8) -> Seq<PulseCode> {
    byte_symbols(c.g) + byte_symbols(c.r) + byte_symbols(c.b)
}

impl Ws2812b {
    pub fn lo() -> (p: PulseCode)
        ensures
            p == ws_lo(),
    {
        PulseCode { level1: true, length1: 28, level2: false, length2: 64 }
    }

    pub fn hi() -> (p: PulseCode)
        ensures
            p == ws_hi(),
    {
        PulseCode { level1: true, length1: 56, level2: false, length2: 48 }
    }

    /// Write the eight symbols of one byte at `pos`, most significant bit
    /// first. Returns the number of symbols written.
    pub fn write_byte(buf: &mut Vec<PulseCode>, pos: usize, byte: u8) -> (n: usize)
        requires
            pos + 8 <= old(buf).len(),
        ensures
            n == 8,
            final(buf).len() == old(buf).len(),
            forall|i: int| 0 <= i < 8 ==> final(buf)[pos + i] == byte_symbols(byte)[i],
            forall|j: int|
                0 <= j < final(buf).len() && !(pos <= j < pos + 8) ==> final(buf)[j] == old(
                    buf,
                )[j],
    {
        let mut i: usize = 0;
        while i < 8
            invariant
                i <= 8,
                pos + 8 <= buf.len(),
                buf.len() == old(buf).len(),
                forall|k: int| 0 <= k < i ==> buf[pos + k] == byte_symbols(byte)[k],
                forall|j: int|
                    0 <= j < buf.len() && !(pos <= j < pos + i) ==> buf[j] == old(buf)[j],
            decreases 8 - i,
        {
            let bit: u8 = (byte >> (7 - i) as u8) & 1;
            let sym = if bit == 1 {
                Ws2812b::hi()
            } else {
                Ws2812b::lo()
            };
            buf[pos + i] = sym;
            proof {
                assert(buf[pos + i as int] == bit_symbol(byte, i as int));
            }
            i = i + 1;
        }
        8
    }

    /// Write the 24 symbols of one color at `pos`, channels in wire order.
    /// Returns the number of symbols written.
    pub fn write_color(buf: &mut Vec<PulseCode>, pos: usize, color: Rgb8) -> (n: usize)
        requires
            pos + 24 <= old(buf).len(),
        ensures
            n == 24,
            final(buf).len() == old(buf).len(),
            forall|i: int| 0 <= i < 24 ==> final(buf)[pos + i] == color_symbols(color)[i],
            forall|j: int|
                0 <= j < final(buf).len() && !(pos <= j < pos + 24) ==> final(buf)[j] == old(
                    buf,
                )[j],
    {
        Ws2812b::write_byte(buf, pos, color.g);
        Ws2812b::write_byte(buf, pos + 8, color.r);
        Ws2812b::write_byte(buf, pos + 16, color.b);
        proof {
            assert forall|i: int| 0 <= i < 24 implies buf[pos + i] == color_symbols(color)[i] by {
                if i < 8 {
                    assert(color_symbols(color)[i] == byte_symbols(color.g)[i]);
                } else if i < 16 {
                    assert(color_symbols(color)[i] == byte_symbols(color.r)[i - 8]);
                } else {
                    assert(color_symbols(color)[i] == byte_symbols(color.b)[i - 16]);
                }
            }
        }
        24
    }
}

/// A fixed-capacity transmit buffer: room for every bit of the configured
/// strip, a permanent end-of-transmission sentinel in the last slot, and a
/// write cursor that `flush` resets and each written color advances by 24.
#[derive(Debug, Clone)]
pub struct RmtBuf {
    pub buf: Vec<PulseCode>,
    pub pos: usize,
    pub leds: usize,
}

impl RmtBuf {
    /// The capacity is pinned to the configured strip length, the cursor
    /// stays within it, and the sentinel sits untouched in the final slot.
    pub open spec fn wf(self) -> bool {
        &&& self.leds <= MAX_STRIP_LEN
        &&& self.buf.len() == self.leds * 24 + 1
        &&& self.pos <= self.leds * 24
        &&& self.buf[self.leds * 24 as int] == end_marker()
    }

    /// A fresh buffer for a strip of `leds` pixels: all zero-bit symbols,
    /// the sentinel written once in the last slot, the cursor at the start.
    pub fn new(leds: usize) -> (b: Self)
        requires
            leds <= MAX_STRIP_LEN,
        ensures
            b.wf(),
            b.leds == leds,
            b.pos == 0,
            forall|j: int| 0 <= j < leds * 24 ==> b.buf[j] == ws_lo(),
    {
        let cap = leds * 24 + 1;
        let mut buf: Vec<PulseCode> = Vec::new();
        let mut i: usize = 0;
        while i < cap
            invariant
                i == buf.len() <= cap,
                forall|j: int| 0 <= j < i ==> buf[j] == ws_lo(),
            decreases cap - i,
        {
            buf.push(Ws2812b::lo());
            i = i + 1;
        }
        buf[cap - 1] = PulseCode::end_marker();
        Self { buf, pos: 0, leds }
    }

    /// A view into the symbols to hand to the hardware.
    pub fn buf(&self) -> (b: &Vec<PulseCode>)
        ensures
            b == self.buf,
    {
        &self.buf
    }

    /// Reset the write cursor without touching the symbols.
    pub fn flush(&mut self)
        ensures
            final(self).buf == old(self).buf,
            final(self).leds == old(self).leds,
            final(self).pos == 0,
    {
        self.pos = 0;
    }

    /// Append one color at the cursor: 24 symbols, cursor advanced by 24.
    /// Staying within the configured strip length is the caller's duty,
    /// discharged here by precondition.
    pub fn write_color(&mut self, color: Rgb8) -> (n: usize)
        requires
            old(self).wf(),
            old(self).pos + 24 <= old(self).leds * 24,
        ensures
            n == 24,
            final(self).wf(),
            final(self).leds == old(self).leds,
            final(self).pos == old(self).pos + 24,
            final(self).buf.len() == old(self).buf.len(),
            forall|i: int|
                0 <= i < 24 ==> final(self).buf[old(self).pos + i] == color_symbols(color)[i],
            forall|j: int|
                0 <= j < final(self).buf.len() && !(old(self).pos <= j < old(self).pos + 24)
                    ==> final(self).buf[j] == old(self).buf[j],
    {
        let n = Ws2812b::write_color(&mut self.buf, self.pos, color);
        self.pos = self.pos + 24;
        n
    }
}

} // verus!
