use vstd::prelude::*;

use crate::fx::Effects;
use crate::strip::{State, StripState};

verus! {

/// The operating state of one strip.
#[derive(Debug, Clone, Copy, PartialEq, Eq, Structural)]
pub enum StripMode {
    /// The strip is dark and skipped by the transmit loop.
    Off,
    /// The strip shows locally rendered effects.
    Effects,
    /// The strip shows streamed color data.
    Dynamic,
    /// The strip blends streamed data over the rendered effects, weighted by
    /// the streamed alpha channel.
    Hybrid,
}

impl Default for StripMode {
    fn default() -> (m: Self)
        ensures
            m == StripMode::Effects,
    {
        StripMode::Effects
    }
}

/// Whether a strip in this mode accepts streamed color writes.
pub open spec fn mode_writable(m: StripMode) -> bool {
    m == StripMode::Dynamic || m == StripMode::Hybrid
}

/// A control message from the server to a node.
#[derive(Debug, Clone, Copy, PartialEq, Eq, Structural)]
pub enum ServerMessage {
    /// Set a strip's mode, by strip index.
    SetStripMode(u8, StripMode),
    /// Shift the current effect mode by a delta.
    ShiftEffectMode(i8),
}

/// A control message from a node to the server. No message is defined yet,
/// so the type carries nothing.
#[derive(Debug, Clone, Copy, PartialEq, Eq, Structural)]
pub struct NodeMessage;

/// The command byte of a streamed datagram record.
#[derive(Debug, Clone, Copy, PartialEq, Eq, Structural)]
pub enum UdpMessage {
    /// Set the entire buffer to individually specified opaque colors.
    SetBufferToMany,
    /// Set the entire buffer to a single opaque color.
    SetBufferToSingle,
    /// Set a single pixel to a certain color (reserved, not yet honored).
    SetSinglePixel,
    /// Set the entire buffer to individually specified colors with alpha.
    SetBufferToManyAlpha,
    /// Set the entire buffer to a single color with alpha (reserved, not yet
    /// honored).
    SetBufferToSingleAlpha,
}

/// The command a byte stands for, if any.
pub open spec fn spec_udp_message(b: u8) -> Option<UdpMessage> {
    if b == 0 {
        Some(UdpMessage::SetBufferToMany)
    } else if b == 1 {
        Some(UdpMessage::SetBufferToSingle)
    } else if b == 2 {
        Some(UdpMessage::SetSinglePixel)
    } else if b == 3 {
        Some(UdpMessage::SetBufferToManyAlpha)
    } else if b == 4 {
        Some(UdpMessage::SetBufferToSingleAlpha)
    } else {
        None
    }
}

impl UdpMessage {
    /// Decode a command byte; bytes outside the known range decode to
    /// nothing.
    pub fn from_byte(b: u8) -> (m: Option<UdpMessage>)
        ensures
            m == spec_udp_message(b),
    {
        match b {
            0 => Some(UdpMessage::SetBufferToMany),
            1 => Some(UdpMessage::SetBufferToSingle),
            2 => Some(UdpMessage::SetSinglePixel),
            3 => Some(UdpMessage::SetBufferToManyAlpha),
            4 => Some(UdpMessage::SetBufferToSingleAlpha),
            _ => None,
        }
    }
}

/// Apply one control message: a mode change lands on the addressed strip if
/// the index is in range (and is dropped otherwise); an effect shift moves
/// the selector by the signed delta with wraparound.
pub fn apply_server_message(state: &mut State, fx: &mut Effects, msg: ServerMessage)
    requires
        old(state).wf(),
        old(fx).wf(),
    ensures
        final(state).wf(),
        final(fx).wf(),
        match msg {
            ServerMessage::SetStripMode(i, mode) => {
                &&& *final(fx) == *old(fx)
                &&& if i < old(state).strips.len() {
                    final(state).strips@ == old(state).strips@.update(
                        i as int,
                        StripState {
                            mode,
                            ..old(state).strips@[i as int]
                        },
                    )
                } else {
                    *final(state) == *old(state)
                }
            },
            ServerMessage::ShiftEffectMode(delta) => {
                &&& *final(state) == *old(state)
                &&& final(fx).list == old(fx).list
                &&& final(fx).index == (old(fx).index + delta as int) % old(fx).list.len() as int
            },
        },
{
    match msg {
        ServerMessage::SetStripMode(i, mode) => {
            if (i as usize) < state.strips.len() {
                state.strips[i as usize].mode = mode;
            }
        },
        ServerMessage::ShiftEffectMode(delta) => {
            fx.shift_effect(delta);
        },
    }
}

} // verus!
