use vstd::prelude::*;

use crate::color::{bright_of, gamma_of, Rgb8};
use crate::fx::{Effect, Effects};
use crate::net::StripMode;
use crate::rgba::{spec_blend_over, Rgba8};
use crate::rmt_led::{color_symbols, RmtBuf};
use crate::strip::{State, StripModel, StripState};

verus! {

/// The locally rendered base of a pixel: the effect's output where the mode
/// shows effects, black otherwise.
pub open spec fn base_pixel(mode: StripMode, e: Rgb8) -> Rgb8 {
    if mode == StripMode::Effects || mode == StripMode::Hybrid {
        e
    } else {
        Rgb8 { r: 0u8, g: 0u8, b: 0u8 }
    }
}

/// One fully composed pixel: where the mode takes streamed data, the stored
/// color composited over the opaque base; otherwise the base alone.
pub open spec fn composed_pixel(strip: StripModel, e: Rgb8, i: int) -> Rgb8 {
    let base = base_pixel(strip.mode, e);
    if strip.mode == StripMode::Dynamic || strip.mode == StripMode::Hybrid {
        let blended = spec_blend_over(
            strip.colors[i],
            Rgba8 { r: base.r, g: base.g, b: base.b, a: 255u8 },
        );
        Rgb8 { r: blended.r, g: blended.g, b: blended.b }
    } else {
        base
    }
}

/// Whether the transmit loop renders and transmits a strip at all: one that
/// drives no pixels or is switched off is skipped entirely.
pub open spec fn spec_strip_active(strip: StripState) -> bool {
    strip.info.leds > 0 && strip.mode != StripMode::Off
}

/// Whether the transmit loop renders and transmits this strip at all.
pub fn strip_active(strip: &StripState) -> (r: bool)
    ensures
        r == spec_strip_active(*strip),
{
    strip.info.leds > 0 && !(strip.mode == StripMode::Off)
}

/// Compose one strip's frame into `out`: the active effect (or black) as the
/// base, with the streamed colors blended over it where the mode calls for
/// it.
pub fn compose_strip(strip: &StripState, fx: &Effects, now: u64, out: &mut Vec<Rgb8>)
    requires
        strip.wf(),
        fx.wf(),
        old(out).len() >= strip.info.leds,
    ensures
        final(out).len() == old(out).len(),
        forall|i: int|
            0 <= i < strip.info.leds ==> final(out)[i] == composed_pixel(
                strip@,
                fx.list[fx.index as int].spec_pixel(i, now),
                i,
            ),
        forall|i: int|
            strip.info.leds <= i < final(out).len() ==> final(out)[i] == old(out)[i],
{
    let leds = strip.info.leds;
    let effects_on = strip.mode == StripMode::Effects || strip.mode == StripMode::Hybrid;
    if effects_on {
        fx.update(&strip.info, out, now);
    } else {
        let mut i: usize = 0;
        while i < leds
            invariant
                i <= leds <= out.len(),
                out.len() == old(out).len(),
                forall|j: int| 0 <= j < i ==> out[j] == (Rgb8 { r: 0u8, g: 0u8, b: 0u8 }),
                forall|j: int| i <= j < out.len() ==> out[j] == old(out)[j],
            decreases leds - i,
        {
            out[i] = Rgb8::zero();
            i = i + 1;
        }
    }
    let ghost base_buf = out@;
    assert(forall|i: int|
        0 <= i < leds ==> base_buf[i] == base_pixel(
            strip.mode,
            fx.list[fx.index as int].spec_pixel(i, now),
        ));
    if strip.mode == StripMode::Dynamic || strip.mode == StripMode::Hybrid {
        let mut j: usize = 0;
        while j < leds
            invariant
                j <= leds <= out.len(),
                leds <= strip.colors.len(),
                out.len() == old(out).len(),
                forall|i: int| j <= i < out.len() ==> out[i] == base_buf[i],
                forall|i: int|
                    0 <= i < j ==> out[i] == composed_pixel(
                        strip@,
                        fx.list[fx.index as int].spec_pixel(i, now),
                        i,
                    ),
                forall|i: int|
                    0 <= i < leds ==> base_buf[i] == base_pixel(
                        strip.mode,
                        fx.list[fx.index as int].spec_pixel(i, now),
                    ),
                strip.mode == StripMode::Dynamic || strip.mode == StripMode::Hybrid,
            decreases leds - j,
        {
            let cur = out[j];
            proof {
                let e = fx.list[fx.index as int].spec_pixel(j as int, now);
                assert(cur == base_buf[j as int]);
                assert(base_buf[j as int] == base_pixel(strip.mode, e));
            }
            let bg = Rgba8::opaque(cur);
            let blended = strip.colors[j].blend_over(bg);
            out[j] = blended.rgb();
            proof {
                let e = fx.list[fx.index as int].spec_pixel(j as int, now);
                assert(strip@.colors[j as int] == strip.colors[j as int]);
                assert(out[j as int] == composed_pixel(strip@, e, j as int));
            }
            j = j + 1;
        }
    }
}

/// The pixel as it goes on the wire: gamma-corrected, then scaled to the
/// configured brightness.
pub open spec fn post_pixel(c: Rgb8, num: u32, den: u32) -> Rgb8 {
    Rgb8 {
        r: bright_of(gamma_of(c.r), num, den),
        g: bright_of(gamma_of(c.g), num, den),
        b: bright_of(gamma_of(c.b), num, den),
    }
}

/// Reset the transmit buffer and encode the strip's whole frame into it:
/// exactly 24 symbols per pixel, each color gamma-corrected and scaled by
/// `num / den` before encoding, with the end sentinel untouched.
///
/// Gamma ownership: streamed colors arrive linear and are corrected exactly
/// once, here at the wire stage; effects gamma-correct their palette output
/// themselves and so pass the table twice. That split is deliberate and
/// pinned by the contracts (`post_pixel` over `composed_pixel`).
pub fn encode_strip(rmt: &mut RmtBuf, colors: &Vec<Rgb8>, num: u32, den: u32)
    requires
        old(rmt).wf(),
        colors.len() >= old(rmt).leds,
        den > 0,
    ensures
        final(rmt).wf(),
        final(rmt).leds == old(rmt).leds,
        final(rmt).buf.len() == old(rmt).buf.len(),
        final(rmt).pos == final(rmt).leds * 24,
        forall|i: int, k: int|
            0 <= i < final(rmt).leds && 0 <= k < 24 ==> final(rmt).buf[i * 24 + k]
                == color_symbols(post_pixel(colors[i], num, den))[k],
{
    rmt.flush();
    let leds = rmt.leds;
    let mut i: usize = 0;
    while i < leds
        invariant
            i <= leds,
            leds == rmt.leds,
            colors.len() >= leds,
            den > 0,
            rmt.wf(),
            rmt.buf.len() == old(rmt).buf.len(),
            rmt.pos == i * 24,
            forall|i2: int, k: int|
                0 <= i2 < i && 0 <= k < 24 ==> rmt.buf[i2 * 24 + k] == color_symbols(
                    post_pixel(colors[i2], num, den),
                )[k],
        decreases leds - i,
    {
        let c = colors[i].gamma_correct().brightness(num, den);
        let ghost pos_before = rmt.pos;
        rmt.write_color(c);
        proof {
            assert(forall|k: int|
                0 <= k < 24 ==> rmt.buf[pos_before + k] == color_symbols(
                    post_pixel(colors[i as int], num, den),
                )[k]);
            assert forall|i2: int, k: int| 0 <= i2 < i + 1 && 0 <= k < 24 implies rmt.buf[i2 * 24
                + k] == color_symbols(post_pixel(colors[i2], num, den))[k] by {
                if i2 < i {
                    assert(i2 * 24 + k < i * 24) by (nonlinear_arith)
                        requires
                            0 <= i2 < i && 0 <= k < 24,
                    ;
                    assert(i2 * 24 + k >= 0) by (nonlinear_arith)
                        requires
                            0 <= i2 && 0 <= k,
                    ;
                } else {
                    assert(i2 * 24 + k == pos_before + k);
                }
            }
        }
        i = i + 1;
    }
}

/// Whether one transmit buffer holds exactly the strip's encoded frame under
/// the given effect, time and brightness.
pub open spec fn frame_encoded(
    strip: StripModel,
    eff: Effect,
    now: u64,
    rmt: RmtBuf,
    num: u32,
    den: u32,
) -> bool {
    &&& rmt.pos == rmt.leds * 24
    &&& forall|i: int, k: int|
        0 <= i < rmt.leds && 0 <= k < 24 ==> rmt.buf[i * 24 + k] == color_symbols(
            post_pixel(composed_pixel(strip, eff.spec_pixel(i, now), i), num, den),
        )[k]
}

/// One frame's rendering work, strip by strip in configuration order: every
/// active strip's buffer is composed, post-processed and encoded; inactive
/// strips' transmit buffers are left alone. The caller holds the strips'
/// lock across this call and transmits the buffers after releasing it.
pub fn render_frame(
    state: &State,
    fx: &Effects,
    now: u64,
    ebufs: &mut Vec<Vec<Rgb8>>,
    rmts: &mut Vec<RmtBuf>,
    num: u32,
    den: u32,
)
    requires
        state.wf(),
        fx.wf(),
        den > 0,
        old(ebufs).len() == state.strips.len(),
        old(rmts).len() == state.strips.len(),
        forall|j: int| 0 <= j < state.strips.len() ==> (#[trigger] old(rmts)[j]).wf(),
        forall|j: int|
            0 <= j < state.strips.len() ==> (#[trigger] old(rmts)[j]).leds
                == state.strips[j].info.leds,
        forall|j: int|
            0 <= j < state.strips.len() ==> (#[trigger] old(ebufs)[j]).len()
                >= state.strips[j].info.leds,
    ensures
        final(ebufs).len() == old(ebufs).len(),
        final(rmts).len() == old(rmts).len(),
        forall|j: int| 0 <= j < state.strips.len() ==> (#[trigger] final(rmts)[j]).wf(),
        forall|j: int|
            0 <= j < state.strips.len() ==> (#[trigger] final(rmts)[j]).leds
                == state.strips[j].info.leds,
        forall|j: int|
            0 <= j < state.strips.len() && spec_strip_active(state.strips[j]) ==> frame_encoded(
                state.strips[j]@,
                fx.list[fx.index as int],
                now,
                #[trigger] final(rmts)[j],
                num,
                den,
            ),
        forall|j: int|
            0 <= j < state.strips.len() && !spec_strip_active(state.strips[j])
                ==> #[trigger] final(rmts)[j] == old(rmts)[j],
{
    let n = state.strips.len();
    let mut i: usize = 0;
    while i < n
        invariant
            i <= n,
            n == state.strips.len(),
            ebufs.len() == n,
            rmts.len() == n,
            state.wf(),
            fx.wf(),
            den > 0,
            forall|j: int| 0 <= j < n ==> (#[trigger] rmts[j]).wf(),
            forall|j: int| 0 <= j < n ==> (#[trigger] rmts[j]).leds == state.strips[j].info.leds,
            forall|j: int|
                0 <= j < n ==> (#[trigger] ebufs[j]).len() >= state.strips[j].info.leds,
            forall|j: int|
                0 <= j < i && spec_strip_active(state.strips[j]) ==> frame_encoded(
                    state.strips[j]@,
                    fx.list[fx.index as int],
                    now,
                    #[trigger] rmts[j],
                    num,
                    den,
                ),
            forall|j: int|
                0 <= j < i && !spec_strip_active(state.strips[j]) ==> #[trigger] rmts[j] == old(
                    rmts,
                )[j],
            forall|j: int| i <= j < n ==> #[trigger] rmts[j] == old(rmts)[j],
        decreases n - i,
    {
        let strip = &state.strips[i];
        if strip_active(strip) {
            compose_strip(strip, fx, now, &mut ebufs[i]);
            encode_strip(&mut rmts[i], &ebufs[i], num, den);
            proof {
                let eff = fx.list[fx.index as int];
                assert forall|p: int, k: int|
                    0 <= p < rmts[i as int].leds && 0 <= k < 24 implies rmts[i as int].buf[p * 24
                    + k] == color_symbols(
                    post_pixel(composed_pixel(strip@, eff.spec_pixel(p, now), p), num, den),
                )[k] by {
                    assert(ebufs[i as int][p] == composed_pixel(strip@, eff.spec_pixel(p, now), p));
                }
            }
        }
        i = i + 1;
    }
}

/// How long the loop waits before its next iteration: the protocol's latch
/// time less the time already spent since the first strip finished, or a
/// one-second fallback when nothing was transmitted.
pub open spec fn spec_transmit_wait(latch: u64, elapsed: u64, transmitted: bool) -> u64 {
    if !transmitted {
        1000000u64
    } else if elapsed >= latch {
        0u64
    } else {
        (latch - elapsed) as u64
    }
}

/// Compute the inter-frame wait in microseconds.
pub fn transmit_wait_micros(latch: u64, elapsed: u64, transmitted: bool) -> (w: u64)
    ensures
        w == spec_transmit_wait(latch, elapsed, transmitted),
{
    if !transmitted {
        1000000
    } else if elapsed >= latch {
        0
    } else {
        latch - elapsed
    }
}

} // verus!
