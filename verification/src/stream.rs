//! The playback stream handle's frame construction: audio bytes become data
//! frames tagged with the stream's server-assigned channel index.

use vstd::prelude::*;

use bytes::BytesMut;

use crate::buf::buf_data;
use crate::frame::{Frame, FrameModel};

verus! {

/// A playback stream's identity: the channel index the server assigned in
/// its `CreatePlaybackStream` reply. The index is immutable for the life of
/// the stream.
#[derive(Debug, Clone, Copy, PartialEq, Eq, Structural)]
pub struct PlaybackStream {
    pub channel: u32,
}

impl PlaybackStream {
    /// A handle for the stream the server put at `channel`.
    pub fn new(channel: u32) -> (s: PlaybackStream)
        ensures
            s.channel == channel,
    {
        PlaybackStream { channel }
    }

    /// The frame that carries `data` to this stream: the payload under the
    /// stream's channel index, with zero seek offset and flags. Writing
    /// completes when the frame is accepted into the outbound queue, not
    /// when the server has played it.
    pub fn data_frame(&self, data: BytesMut) -> (f: Frame)
        ensures
            f@ == (FrameModel {
                channel: self.channel,
                offset_hi: 0,
                offset_low: 0,
                flags: 0,
                data: buf_data(data),
            }),
    {
        Frame { channel: self.channel, offset_hi: 0, offset_low: 0, flags: 0, data }
    }
}

} // verus!
