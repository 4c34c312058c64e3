//! The client-facade logic that is independent of any socket: the connection
//! state machine, version negotiation, and the construction of the playback
//! stream request with its defaults.

use vstd::prelude::*;

use vstd::string::StringExecFns;

use crate::command::{CreatePlaybackStream, SinkRef};
use crate::tag_struct::{ChannelMap, ChannelVolume, SampleSpec};
use crate::VOLUME_NORMAL;

verus! {

/// Where a connection stands. The socket connecting moves it to
/// `Authenticating`; a compatible authentication reply to `Ready`; any fatal
/// transport or protocol error to `Closed`, which is terminal.
#[derive(Debug, Clone, Copy, PartialEq, Eq, Structural)]
pub enum ConnectionState {
    Connecting,
    Authenticating,
    Ready,
    Closed,
}

impl ConnectionState {
    /// A connection that is still being established.
    pub fn new() -> (s: ConnectionState)
        ensures
            s == ConnectionState::Connecting,
    {
        ConnectionState::Connecting
    }

    /// The socket connected: authentication begins.
    pub fn on_connected(&mut self)
        requires
            *old(self) == ConnectionState::Connecting,
        ensures
            *final(self) == ConnectionState::Authenticating,
    {
        *self = ConnectionState::Authenticating;
    }

    /// The authentication reply arrived with a compatible version.
    pub fn on_auth_reply(&mut self)
        requires
            *old(self) == ConnectionState::Authenticating,
        ensures
            *final(self) == ConnectionState::Ready,
    {
        *self = ConnectionState::Ready;
    }

    /// A fatal I/O or protocol error from any state; `Closed` is terminal.
    pub fn on_fatal(&mut self)
        ensures
            *final(self) == ConnectionState::Closed,
    {
        *self = ConnectionState::Closed;
    }

    /// Whether requests may be issued.
    pub fn is_ready(&self) -> (r: bool)
        ensures
            r == (*self == ConnectionState::Ready),
    {
        match self {
            ConnectionState::Ready => true,
            _ => false,
        }
    }
}

/// The protocol version the client ends up speaking: the smaller of the
/// version it proposed and the version the server reports.
pub fn negotiate_version(proposed: u32, server: u32) -> (negotiated: u32)
    ensures
        negotiated == if proposed <= server {
            proposed
        } else {
            server
        },
{
    if proposed <= server {
        proposed
    } else {
        server
    }
}

/// The playback stream request a client sends for a caller who gave only a
/// name, a sample specification, and a channel map: the stream targets the
/// default sink, carries normal volume on every channel, asks the server to
/// pick every buffer size, and starts uncorked.
pub fn create_playback_stream_request(
    name: std::string::String,
    sample_spec: SampleSpec,
    channel_map: ChannelMap,
    sync_id: u32,
) -> (r: CreatePlaybackStream)
    ensures
        r.name@ == name@,
        r.sample_spec == sample_spec,
        r.channel_map@ == channel_map@,
        r.sink_ref is Name && r.sink_ref->Name_0@ == "@DEFAULT_SINK@"@,
        r.max_length == u32::MAX,
        r.corked == false,
        r.t_length == u32::MAX,
        r.prebuf == u32::MAX,
        r.min_req == u32::MAX,
        r.sync_id == sync_id,
        r.volume@ == Seq::new(channel_map@.len(), |i: int| VOLUME_NORMAL),
{
    let n = channel_map.positions.len();
    let mut volumes: Vec<u32> = Vec::new();
    let mut i: usize = 0;
    while i < n
        invariant
            i <= n,
            volumes@.len() == i,
            forall|j: int| 0 <= j < i ==> volumes@[j] == VOLUME_NORMAL,
        decreases n - i,
    {
        volumes.push(VOLUME_NORMAL);
        i += 1;
    }
    proof {
        assert(volumes@ =~= Seq::new(channel_map@.len(), |i: int| VOLUME_NORMAL));
    }
    CreatePlaybackStream {
        name,
        sample_spec,
        channel_map,
        sink_ref: SinkRef::Name(std::string::String::from_str("@DEFAULT_SINK@")),
        max_length: u32::MAX,
        corked: false,
        t_length: u32::MAX,
        prebuf: u32::MAX,
        min_req: u32::MAX,
        sync_id,
        volume: ChannelVolume { volumes },
    }
}

} // verus!
