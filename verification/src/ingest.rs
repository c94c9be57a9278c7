use vstd::prelude::*;

use crate::net::{mode_writable, StripMode};
use crate::rgba::Rgba8;
use crate::strip::{State, StripModel};

verus! {

/// The opaque color carried by the RGB triple at `off + 3 i` of a datagram.
pub open spec fn rgb_record(bytes: Seq<u8>, off: int, i: int) -> Rgba8 {
    Rgba8 {
        r: bytes[off + 3 * i],
        g: bytes[off + 3 * i + 1],
        b: bytes[off + 3 * i + 2],
        a: 255u8,
    }
}

/// The premultiplied color carried by the RGBA quad at `off + 4 i`. Senders
/// are expected to deliver quads that are already premultiplied; a quad that
/// is not (a color channel above its alpha) is still stored verbatim, and
/// downstream compositing merely clamps, since `blend_over` assumes nothing
/// of its inputs.
pub open spec fn rgba_record(bytes: Seq<u8>, off: int, i: int) -> Rgba8 {
    Rgba8 {
        r: bytes[off + 4 * i],
        g: bytes[off + 4 * i + 1],
        b: bytes[off + 4 * i + 2],
        a: bytes[off + 4 * i + 3],
    }
}

/// A buffer with its first `leds` entries replaced by `f` and the rest kept.
pub open spec fn filled(colors: Seq<Rgba8>, leds: nat, f: spec_fn(int) -> Rgba8) -> Seq<Rgba8> {
    Seq::new(
        colors.len(),
        |i: int|
            if i < leds {
                f(i)
            } else {
                colors[i]
            },
    )
}

/// The strips after a record writes `colors` into strip `t`'s buffer.
pub open spec fn with_colors(strips: Seq<StripModel>, t: int, colors: Seq<Rgba8>) -> Seq<
    StripModel,
> {
    strips.update(t, StripModel { colors, ..strips[t] })
}

/// What a datagram does to the strips. Records are read front to back while
/// at least a two-byte header remains. A target index out of range, a target
/// whose mode refuses streamed writes, an unknown or unsupported command, or
/// a payload longer than what remains each abort the rest of the datagram,
/// leaving every strip as the records before the abort left it. A complete
/// record replaces the target's first `leds` buffer entries and processing
/// continues behind its payload.
pub open spec fn process_datagram(strips: Seq<StripModel>, bytes: Seq<u8>) -> Seq<StripModel>
    decreases bytes.len(),
{
    if bytes.len() < 2 {
        strips
    } else {
        let cmd = bytes[0];
        let t = bytes[1] as int;
        if !(t < strips.len()) {
            strips
        } else if !mode_writable(strips[t].mode) {
            strips
        } else {
            let leds = strips[t].leds;
            if cmd == 0 {
                if bytes.len() < 2 + leds * 3 {
                    strips
                } else {
                    process_datagram(
                        with_colors(
                            strips,
                            t,
                            filled(strips[t].colors, leds, |i: int| rgb_record(bytes, 2, i)),
                        ),
                        bytes.skip(2 + leds * 3 as int),
                    )
                }
            } else if cmd == 1 {
                if bytes.len() < 5 {
                    strips
                } else {
                    let c = Rgba8 { r: bytes[2], g: bytes[3], b: bytes[4], a: 255u8 };
                    process_datagram(
                        with_colors(strips, t, filled(strips[t].colors, leds, |i: int| c)),
                        bytes.skip(5),
                    )
                }
            } else if cmd == 3 {
                if bytes.len() < 2 + leds * 4 {
                    strips
                } else {
                    process_datagram(
                        with_colors(
                            strips,
                            t,
                            filled(strips[t].colors, leds, |i: int| rgba_record(bytes, 2, i)),
                        ),
                        bytes.skip(2 + leds * 4 as int),
                    )
                }
            } else {
                strips
            }
        }
    }
}

/// Replace the first `leds` colors of strip `t` with the RGB triples that
/// start at `off`, read as opaque colors.
fn fill_many(state: &mut State, t: usize, data: &Vec<u8>, off: usize)
    requires
        old(state).wf(),
        t < old(state).strips.len(),
        off + old(state).strips[t as int].info.leds * 3 <= data.len(),
    ensures
        final(state).wf(),
        final(state)@ == with_colors(
            old(state)@,
            t as int,
            filled(
                old(state)@[t as int].colors,
                old(state)@[t as int].leds,
                |i: int| rgb_record(data@, off as int, i),
            ),
        ),
{
    let leds = state.strips[t].info.leds;
    let mut j: usize = 0;
    while j < leds
        invariant
            j <= leds,
            t < state.strips.len(),
            state.strips.len() == old(state).strips.len(),
            leds == state.strips[t as int].info.leds,
            off + leds * 3 <= data.len(),
            state.wf(),
            state.strips[t as int].colors.len() == old(state).strips[t as int].colors.len(),
            state.strips[t as int].info == old(state).strips[t as int].info,
            state.strips[t as int].mode == old(state).strips[t as int].mode,
            forall|k: int|
                0 <= k < state.strips.len() && k != t ==> state.strips[k] == old(state).strips[k],
            forall|i: int|
                0 <= i < j ==> state.strips[t as int].colors[i] == rgb_record(
                    data@,
                    off as int,
                    i,
                ),
            forall|i: int|
                j <= i < state.strips[t as int].colors.len() ==> state.strips[t as int].colors[i]
                    == old(state).strips[t as int].colors[i],
        decreases leds - j,
    {
        let base = off + 3 * j;
        let c = Rgba8::new_premultiplied(data[base], data[base + 1], data[base + 2], 255);
        state.strips[t].colors[j] = c;
        j = j + 1;
    }
    proof {
        lemma_strips_match(
            *old(state),
            *state,
            t as int,
            filled(
                old(state)@[t as int].colors,
                old(state)@[t as int].leds,
                |i: int| rgb_record(data@, off as int, i),
            ),
        );
    }
}

/// Replace the first `leds` colors of strip `t` with one color.
fn fill_single(state: &mut State, t: usize, c: Rgba8)
    requires
        old(state).wf(),
        t < old(state).strips.len(),
    ensures
        final(state).wf(),
        final(state)@ == with_colors(
            old(state)@,
            t as int,
            filled(old(state)@[t as int].colors, old(state)@[t as int].leds, |i: int| c),
        ),
{
    let leds = state.strips[t].info.leds;
    let mut j: usize = 0;
    while j < leds
        invariant
            j <= leds,
            t < state.strips.len(),
            state.strips.len() == old(state).strips.len(),
            leds == state.strips[t as int].info.leds,
            state.wf(),
            state.strips[t as int].colors.len() == old(state).strips[t as int].colors.len(),
            state.strips[t as int].info == old(state).strips[t as int].info,
            state.strips[t as int].mode == old(state).strips[t as int].mode,
            forall|k: int|
                0 <= k < state.strips.len() && k != t ==> state.strips[k] == old(state).strips[k],
            forall|i: int| 0 <= i < j ==> state.strips[t as int].colors[i] == c,
            forall|i: int|
                j <= i < state.strips[t as int].colors.len() ==> state.strips[t as int].colors[i]
                    == old(state).strips[t as int].colors[i],
        decreases leds - j,
    {
        state.strips[t].colors[j] = c;
        j = j + 1;
    }
    proof {
        lemma_strips_match(
            *old(state),
            *state,
            t as int,
            filled(old(state)@[t as int].colors, old(state)@[t as int].leds, |i: int| c),
        );
    }
}

/// Replace the first `leds` colors of strip `t` with the RGBA quads that
/// start at `off`, stored as already-premultiplied channels.
fn fill_many_alpha(state: &mut State, t: usize, data: &Vec<u8>, off: usize)
    requires
        old(state).wf(),
        t < old(state).strips.len(),
        off + old(state).strips[t as int].info.leds * 4 <= data.len(),
    ensures
        final(state).wf(),
        final(state)@ == with_colors(
            old(state)@,
            t as int,
            filled(
                old(state)@[t as int].colors,
                old(state)@[t as int].leds,
                |i: int| rgba_record(data@, off as int, i),
            ),
        ),
{
    let leds = state.strips[t].info.leds;
    let mut j: usize = 0;
    while j < leds
        invariant
            j <= leds,
            t < state.strips.len(),
            state.strips.len() == old(state).strips.len(),
            leds == state.strips[t as int].info.leds,
            off + leds * 4 <= data.len(),
            state.wf(),
            state.strips[t as int].colors.len() == old(state).strips[t as int].colors.len(),
            state.strips[t as int].info == old(state).strips[t as int].info,
            state.strips[t as int].mode == old(state).strips[t as int].mode,
            forall|k: int|
                0 <= k < state.strips.len() && k != t ==> state.strips[k] == old(state).strips[k],
            forall|i: int|
                0 <= i < j ==> state.strips[t as int].colors[i] == rgba_record(
                    data@,
                    off as int,
                    i,
                ),
            forall|i: int|
                j <= i < state.strips[t as int].colors.len() ==> state.strips[t as int].colors[i]
                    == old(state).strips[t as int].colors[i],
        decreases leds - j,
    {
        let base = off + 4 * j;
        let c = Rgba8::new_premultiplied(
            data[base],
            data[base + 1],
            data[base + 2],
            data[base + 3],
        );
        state.strips[t].colors[j] = c;
        j = j + 1;
    }
    proof {
        lemma_strips_match(
            *old(state),
            *state,
            t as int,
            filled(
                old(state)@[t as int].colors,
                old(state)@[t as int].leds,
                |i: int| rgba_record(data@, off as int, i),
            ),
        );
    }
}

/// If two states agree on every strip but `t`, and strip `t` changed only
/// its buffer, to `colors`, then the second state's image is the first's
/// with that buffer written.
proof fn lemma_strips_match(pre: State, post: State, t: int, colors: Seq<Rgba8>)
    requires
        0 <= t < pre.strips.len(),
        post.strips.len() == pre.strips.len(),
        forall|k: int| 0 <= k < post.strips.len() && k != t ==> post.strips[k] == pre.strips[k],
        post.strips[t].info == pre.strips[t].info,
        post.strips[t].mode == pre.strips[t].mode,
        post.strips[t].colors.len() == colors.len(),
        colors.len() == pre.strips[t].colors.len(),
        forall|i: int| 0 <= i < colors.len() ==> post.strips[t].colors[i] == colors[i],
    ensures
        post@ == with_colors(pre@, t, colors),
{
    assert(post.strips[t].colors@ =~= colors);
    assert(post@[t] =~= with_colors(pre@, t, colors)[t]);
    assert(post@ =~= with_colors(pre@, t, colors));
}

/// Apply the first `n` bytes of a received datagram to the shared strips:
/// the records land in order, and the first malformed or refused record
/// aborts the rest, exactly as `process_datagram` lays out.
///
/// The exclusive borrow covers the whole datagram, so a caller that holds
/// the strips' lock across this one call gives a concurrent render pass
/// either all of the datagram's records or none of them (per-datagram
/// atomicity).
pub fn apply_datagram(state: &mut State, data: &Vec<u8>, n: usize)
    requires
        old(state).wf(),
        n <= data.len(),
    ensures
        final(state).wf(),
        final(state)@ == process_datagram(old(state)@, data@.subrange(0, n as int)),
{
    let ghost s0 = old(state)@;
    let ghost full = data@.subrange(0, n as int);
    let mut idx: usize = 0;
    while n - idx >= 2
        invariant_except_break
            idx <= n <= data.len(),
            state.wf(),
            process_datagram(s0, full) == process_datagram(
                state@,
                data@.subrange(idx as int, n as int),
            ),
        ensures
            state.wf(),
            process_datagram(s0, full) == state@,
        decreases n - idx,
    {
        let ghost rest = data@.subrange(idx as int, n as int);
        let ghost s_pre = state@;
        let cmd = data[idx];
        let tb = data[idx + 1];
        let t = tb as usize;
        if t >= state.strips.len() {
            proof {
                assert(rest[1] == tb);
                assert(process_datagram(s_pre, rest) == s_pre);
            }
            break ;
        }
        let mode = state.strips[t].mode;
        if !(mode == StripMode::Dynamic || mode == StripMode::Hybrid) {
            proof {
                assert(s_pre[t as int].mode == mode);
                assert(process_datagram(s_pre, rest) == s_pre);
            }
            break ;
        }
        let leds = state.strips[t].info.leds;
        proof {
            assert(state.strips[t as int].wf());
            assert(s_pre[t as int].leds == leds);
        }
        let remaining = n - idx - 2;
        if cmd == 0 {
            if remaining < leds * 3 {
                proof {
                    assert(process_datagram(s_pre, rest) == s_pre);
                }
                break ;
            }
            fill_many(state, t, data, idx + 2);
            proof {
                let f_in = |i: int| rgb_record(data@, idx + 2, i);
                let f_spec = |i: int| rgb_record(rest, 2, i);
                assert(filled(s_pre[t as int].colors, s_pre[t as int].leds, f_in) =~= filled(
                    s_pre[t as int].colors,
                    s_pre[t as int].leds,
                    f_spec,
                ));
                assert(rest.skip(2 + leds * 3) =~= data@.subrange(
                    idx + 2 + leds * 3,
                    n as int,
                ));
            }
            idx = idx + 2 + leds * 3;
        } else if cmd == 1 {
            if remaining < 3 {
                proof {
                    assert(process_datagram(s_pre, rest) == s_pre);
                }
                break ;
            }
            let c = Rgba8::new_premultiplied(data[idx + 2], data[idx + 3], data[idx + 4], 255);
            fill_single(state, t, c);
            proof {
                assert(c == (Rgba8 { r: rest[2], g: rest[3], b: rest[4], a: 255u8 }));
                assert(rest.skip(5) =~= data@.subrange(idx + 5, n as int));
            }
            idx = idx + 5;
        } else if cmd == 3 {
            if remaining < leds * 4 {
                proof {
                    assert(process_datagram(s_pre, rest) == s_pre);
                }
                break ;
            }
            fill_many_alpha(state, t, data, idx + 2);
            proof {
                let f_in = |i: int| rgba_record(data@, idx + 2, i);
                let f_spec = |i: int| rgba_record(rest, 2, i);
                assert(filled(s_pre[t as int].colors, s_pre[t as int].leds, f_in) =~= filled(
                    s_pre[t as int].colors,
                    s_pre[t as int].leds,
                    f_spec,
                ));
                assert(rest.skip(2 + leds * 4) =~= data@.subrange(
                    idx + 2 + leds * 4,
                    n as int,
                ));
            }
            idx = idx + 2 + leds * 4;
        } else {
            proof {
                assert(process_datagram(s_pre, rest) == s_pre);
            }
            break ;
        }
    }
}

} // verus!
