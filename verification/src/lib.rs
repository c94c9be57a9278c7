//! Drives addressable LED strips: renders per-pixel color from local
//! animation and streamed network data, encodes it into the timed
//! single-wire symbols the strips expect, and applies inbound datagrams to
//! the shared per-strip state, all under machine-checked contracts.
//!
//! Color arithmetic is carried out over byte channels, each read as a
//! fraction of 255, so every step of the pipeline is exact integer
//! arithmetic with explicit round-to-nearest at each scaling.

pub mod color;
pub mod effect;
pub mod fx;
pub mod hsv;
pub mod ingest;
pub mod net;
pub mod render;
pub mod rgba;
pub mod rmt_led;
pub mod strip;
