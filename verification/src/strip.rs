use vstd::prelude::*;

use crate::effect::StripInfo;
use crate::net::StripMode;
use crate::rgba::Rgba8;

verus! {

/// The largest strip length the fixed buffers are sized for.
pub const MAX_STRIP_LEN: usize = 300;

/// The capacity of one transmit buffer: one symbol per bit of the longest
/// strip, plus the end-of-transmission sentinel.
pub const MAX_STRIP_BUF_LEN: usize = MAX_STRIP_LEN * 24 + 1;

/// The shared, per-strip record: the streamed color buffer, the geometry,
/// and the operating mode.
#[derive(Debug, Clone)]
pub struct StripState {
    pub colors: Vec<Rgba8>,
    pub info: StripInfo,
    pub mode: StripMode,
}

/// The mathematical image of one strip record: its buffer as a sequence, its
/// pixel count, and its mode.
#[verifier::ext_equal]
pub struct StripModel {
    pub colors: Seq<Rgba8>,
    pub leds: nat,
    pub rev: bool,
    pub mode: StripMode,
}

impl View for StripState {
    type V = StripModel;

    open spec fn view(&self) -> StripModel {
        StripModel {
            colors: self.colors@,
            leds: self.info.leds as nat,
            rev: self.info.rev,
            mode: self.mode,
        }
    }
}

impl StripState {
    /// The color buffer always holds one slot per pixel of the longest
    /// supported strip, and the configured length fits in it.
    pub open spec fn wf(self) -> bool {
        self.colors.len() == MAX_STRIP_LEN && self.info.leds <= MAX_STRIP_LEN
    }

    /// A strip with the given geometry, a cleared buffer, and the blended
    /// mode.
    pub fn new(info: StripInfo) -> (s: Self)
        requires
            info.leds <= MAX_STRIP_LEN,
        ensures
            s.wf(),
            s.info == info,
            s.mode == StripMode::Hybrid,
            forall|i: int|
                0 <= i < s.colors.len() ==> s.colors[i] == (Rgba8 {
                    r: 0u8,
                    g: 0u8,
                    b: 0u8,
                    a: 0u8,
                }),
    {
        Self { colors: zeroed_colors(), info, mode: StripMode::Hybrid }
    }

    /// A strip with no pixels, turned off.
    pub fn empty() -> (s: Self)
        ensures
            s.wf(),
            s.info == (StripInfo { leds: 0usize, rev: false }),
            s.mode == StripMode::Off,
            forall|i: int|
                0 <= i < s.colors.len() ==> s.colors[i] == (Rgba8 {
                    r: 0u8,
                    g: 0u8,
                    b: 0u8,
                    a: 0u8,
                }),
    {
        Self { colors: zeroed_colors(), info: StripInfo::empty(), mode: StripMode::Off }
    }

    /// Whether the strip drives no pixels.
    pub fn is_empty(&self) -> (r: bool)
        ensures
            r == (self.info.leds == 0),
    {
        self.info.leds == 0
    }
}

fn zeroed_colors() -> (v: Vec<Rgba8>)
    ensures
        v.len() == MAX_STRIP_LEN,
        forall|i: int|
            0 <= i < v.len() ==> v[i] == (Rgba8 { r: 0u8, g: 0u8, b: 0u8, a: 0u8 }),
{
    let mut v: Vec<Rgba8> = Vec::new();
    let mut i: usize = 0;
    while i < MAX_STRIP_LEN
        invariant
            i == v.len() <= MAX_STRIP_LEN,
            forall|j: int|
                0 <= j < v.len() ==> v[j] == (Rgba8 { r: 0u8, g: 0u8, b: 0u8, a: 0u8 }),
        decreases MAX_STRIP_LEN - i,
    {
        v.push(Rgba8::zero());
        i = i + 1;
    }
    v
}

/// All the strips this controller drives, in fixed configuration order. The
/// whole collection is guarded by a single lock held by the caller.
pub struct State {
    pub strips: Vec<StripState>,
}

impl View for State {
    type V = Seq<StripModel>;

    open spec fn view(&self) -> Seq<StripModel> {
        self.strips@.map_values(|s: StripState| s@)
    }
}

impl State {
    pub open spec fn wf(self) -> bool {
        forall|i: int| 0 <= i < self.strips.len() ==> (#[trigger] self.strips[i]).wf()
    }

    pub fn new(strips: Vec<StripState>) -> (s: Self)
        requires
            forall|i: int| 0 <= i < strips.len() ==> (#[trigger] strips[i]).wf(),
        ensures
            s.wf(),
            s.strips == strips,
    {
        Self { strips }
    }
}

} // verus!
