//! Native client library for the PulseAudio wire protocol.
//!
//! The protocol engine is built from three layers: a self-describing
//! tag-struct codec for typed command payloads, a length-prefixed frame
//! codec over one byte stream, and a broker that correlates request tags
//! with reply slots and queues outbound frames.

pub mod broker;
pub mod buf;
pub mod channel;
pub mod client;
pub mod command;
pub mod error;
pub mod frame;
pub mod sample;
pub mod stream;
pub mod tag_struct;
pub mod wire;

use vstd::prelude::*;

verus! {

/// The "100%" volume constant; per-channel volumes are relative to it.
pub const VOLUME_NORMAL: u32 = 0x10000;

/// Baseline protocol version proposed during authentication.
pub const PROTOCOL_VERSION: u32 = 8;

/// Reserved index meaning "no such object"; also the reserved request tag.
pub const INVALID_INDEX: u32 = 0xFFFF_FFFF;

} // verus!
