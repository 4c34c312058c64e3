use bytes::BytesMut;
use repulse::broker::{Broker, Dispatch};
use repulse::client::{create_playback_stream_request, negotiate_version, ConnectionState};
use repulse::command::{
    Auth, AuthReply, CommandKind, CreatePlaybackStreamReply, GetServerInfo, ServerInfo, SinkRef,
};
use repulse::channel::ChannelPosition;
use repulse::error::{CloseCause, Error, ErrorKind, IoKind};
use repulse::frame::{Encoder, Frame};
use repulse::sample::SampleFormat;
use repulse::stream::PlaybackStream;
use repulse::tag_struct::{ChannelMap, SampleSpec, TagStruct, Value};
use repulse::{INVALID_INDEX, PROTOCOL_VERSION, VOLUME_NORMAL};

fn server_reply(kind: CommandKind, tag: u32, fill: impl FnOnce(&mut TagStruct)) -> Frame {
    let mut ts = TagStruct::new();
    ts.put_u32(kind.to_u32());
    ts.put_u32(tag);
    fill(&mut ts);
    Frame::command(&ts).unwrap()
}

fn spec_s16_stereo() -> SampleSpec {
    SampleSpec {
        format: SampleFormat::S16LE,
        channels: 2,
        rate: 44100,
    }
}

#[test]
fn authentication_handshake() {
    let mut state = ConnectionState::new();
    state.on_connected();

    let mut broker = Broker::new(16);
    let mut body = TagStruct::new();
    body.put(Auth {
        protocol_version: PROTOCOL_VERSION,
        cookie: vec![0u8; 256],
    });
    let tag = broker.send_command(CommandKind::Auth, body).unwrap();

    // the request went out as one frame: kind, tag, version, cookie
    let frame = broker.dequeue_frame().unwrap();
    let mut sent = TagStruct::parse(&frame.data[..]).unwrap();
    assert_eq!(sent.pop_u32().unwrap(), CommandKind::Auth.to_u32());
    assert_eq!(sent.pop_u32().unwrap(), tag);
    assert_eq!(sent.pop_u32().unwrap(), 8);
    assert_eq!(sent.pop_arbitrary().unwrap().len(), 256);
    assert!(sent.is_empty());

    // the server answers with its version; the request resolves to it
    let reply = server_reply(CommandKind::Reply, tag, |ts| ts.put_u32(8));
    match broker.on_frame(reply).unwrap() {
        Dispatch::Reply { tag: t, mut payload } => {
            assert_eq!(t, tag);
            let auth_reply: AuthReply = payload.pop().unwrap();
            assert_eq!(auth_reply, AuthReply { protocol_version: 8 });
            assert_eq!(negotiate_version(PROTOCOL_VERSION, auth_reply.protocol_version), 8);
        }
        _ => panic!("expected the auth reply"),
    }
    state.on_auth_reply();
    assert!(state.is_ready());
}

#[test]
fn server_info_round_trip() {
    let mut broker = Broker::new(16);
    let mut body = TagStruct::new();
    body.put(GetServerInfo);
    let tag = broker.send_command(CommandKind::GetServerInfo, body).unwrap();

    let reply = server_reply(CommandKind::Reply, tag, |ts| {
        ts.put_string(Some(String::from("PulseAudio")));
        ts.put_string(Some(String::from("14.2")));
        ts.put_string(Some(String::from("u")));
        ts.put_string(Some(String::from("h")));
        ts.put_sample_spec(spec_s16_stereo());
        ts.put_string(Some(String::from("s")));
        ts.put_string(Some(String::from("src")));
        ts.put_u32(42);
    });
    match broker.on_frame(reply).unwrap() {
        Dispatch::Reply { mut payload, .. } => {
            let info: ServerInfo = payload.pop().unwrap();
            assert_eq!(info.server_name, Some(String::from("PulseAudio")));
            assert_eq!(info.server_version, Some(String::from("14.2")));
            assert_eq!(info.user_name, Some(String::from("u")));
            assert_eq!(info.host_name, Some(String::from("h")));
            assert_eq!(info.sample_spec, spec_s16_stereo());
            assert_eq!(info.default_sink_name, Some(String::from("s")));
            assert_eq!(info.default_source_name, Some(String::from("src")));
            assert_eq!(info.instance_cookie, 42);
            assert!(payload.is_empty());
        }
        _ => panic!("expected the server info reply"),
    }
}

#[test]
fn playback_stream_creation() {
    let request = create_playback_stream_request(
        String::from("t"),
        spec_s16_stereo(),
        ChannelMap {
            positions: vec![ChannelPosition::FrontLeft, ChannelPosition::FrontRight],
        },
        0,
    );
    assert_eq!(request.name, "t");
    assert_eq!(request.sample_spec, spec_s16_stereo());
    assert_eq!(request.max_length, u32::MAX);
    assert!(!request.corked);
    assert_eq!(request.t_length, u32::MAX);
    assert_eq!(request.prebuf, u32::MAX);
    assert_eq!(request.min_req, u32::MAX);
    assert_eq!(request.sync_id, 0);
    assert_eq!(request.volume.volumes, vec![VOLUME_NORMAL, VOLUME_NORMAL]);
    match &request.sink_ref {
        SinkRef::Name(name) => assert_eq!(name, "@DEFAULT_SINK@"),
        SinkRef::Index(_) => panic!("the default request targets the sink by name"),
    }

    // the request's wire fields stand in the documented order
    let mut broker = Broker::new(16);
    let mut body = TagStruct::new();
    body.put(request);
    let tag = broker.send_command(CommandKind::CreatePlaybackStream, body).unwrap();
    let frame = broker.dequeue_frame().unwrap();
    let mut sent = TagStruct::parse(&frame.data[..]).unwrap();
    assert_eq!(sent.pop_u32().unwrap(), CommandKind::CreatePlaybackStream.to_u32());
    assert_eq!(sent.pop_u32().unwrap(), tag);
    assert_eq!(sent.pop_string().unwrap(), Some(String::from("t")));
    assert_eq!(sent.pop_sample_spec().unwrap(), spec_s16_stereo());
    match sent.pop_value().unwrap() {
        Value::ChannelMap(map) => assert_eq!(
            map.positions,
            vec![ChannelPosition::FrontLeft, ChannelPosition::FrontRight]
        ),
        other => panic!("expected the channel map, got {:?}", other),
    }
    assert_eq!(sent.pop_u32().unwrap(), INVALID_INDEX); // sink by name
    assert_eq!(sent.pop_string().unwrap(), Some(String::from("@DEFAULT_SINK@")));
    assert_eq!(sent.pop_u32().unwrap(), u32::MAX); // max_length
    assert!(!sent.pop_bool().unwrap()); // corked
    assert_eq!(sent.pop_u32().unwrap(), u32::MAX); // t_length
    assert_eq!(sent.pop_u32().unwrap(), u32::MAX); // prebuf
    assert_eq!(sent.pop_u32().unwrap(), u32::MAX); // min_req
    assert_eq!(sent.pop_u32().unwrap(), 0); // sync_id
    match sent.pop_value().unwrap() {
        Value::ChannelVolume(cv) => assert_eq!(cv.volumes, vec![VOLUME_NORMAL, VOLUME_NORMAL]),
        other => panic!("expected the volume, got {:?}", other),
    }
    assert!(sent.is_empty());

    // the reply's index becomes the stream's channel
    let reply = server_reply(CommandKind::Reply, tag, |ts| {
        ts.put_u32(7);
        ts.put_u32(12);
        ts.put_u32(65536);
    });
    match broker.on_frame(reply).unwrap() {
        Dispatch::Reply { mut payload, .. } => {
            let created: CreatePlaybackStreamReply = payload.pop().unwrap();
            assert_eq!(
                created,
                CreatePlaybackStreamReply { index: 7, sink_input: 12, missing: 65536 }
            );
            let stream = PlaybackStream::new(created.index);
            assert_eq!(stream.channel, 7);
        }
        _ => panic!("expected the stream creation reply"),
    }
}

#[test]
fn data_frame_write() {
    let stream = PlaybackStream::new(7);
    let frame = stream.data_frame(BytesMut::from(&vec![0x55u8; 4000][..]));
    let mut dst = BytesMut::new();
    Encoder::new().encode(frame, &mut dst).unwrap();
    let bytes = dst.to_vec();
    assert_eq!(bytes.len(), 20 + 4000);
    assert_eq!(&bytes[0..4], &[0x00, 0x00, 0x0F, 0xA0]); // length 4000
    assert_eq!(&bytes[4..8], &[0, 0, 0, 7]); // channel 7
    assert_eq!(&bytes[8..20], &[0u8; 12]); // offsets and flags zero
    assert!(bytes[20..].iter().all(|b| *b == 0x55));
}

#[test]
fn server_error_resolves_request_with_kind() {
    let mut broker = Broker::new(16);
    let mut body = TagStruct::new();
    body.put(GetServerInfo);
    let tag = broker.send_command(CommandKind::GetServerInfo, body).unwrap();
    let reply = server_reply(CommandKind::Error, tag, |ts| {
        ts.put_u32(ErrorKind::Access.to_u32())
    });
    match broker.on_frame(reply).unwrap() {
        Dispatch::ServerError { tag: t, kind } => {
            assert_eq!(t, tag);
            assert_eq!(kind, ErrorKind::Access);
            assert_eq!(Error::ServerError(kind), Error::ServerError(ErrorKind::Access));
        }
        _ => panic!("expected the server error"),
    }
    // the broker remains ready for the next request
    assert!(broker.send_command(CommandKind::GetServerInfo, TagStruct::new()).is_ok());
}

#[test]
fn connection_loss_fails_all_in_flight_requests() {
    let mut broker = Broker::new(16);
    let mut tags = Vec::new();
    for _ in 0..3 {
        tags.push(broker.send_command(CommandKind::GetServerInfo, TagStruct::new()).unwrap());
    }
    // the peer closes the socket: the reader shuts the broker down
    let drained = broker.shutdown(CloseCause::Io(IoKind::UnexpectedEof));
    assert_eq!(drained, tags);
    // every drained slot resolves with the connection-loss cause
    for _ in &drained {
        let resolution: Result<TagStruct, Error> =
            Err(Error::ConnectionClosed(CloseCause::Io(IoKind::UnexpectedEof)));
        assert!(matches!(
            resolution,
            Err(Error::ConnectionClosed(CloseCause::Io(IoKind::UnexpectedEof)))
        ));
    }
    assert_eq!(
        broker.send_command(CommandKind::GetServerInfo, TagStruct::new()),
        Err(Error::ConnectionClosed(CloseCause::Io(IoKind::UnexpectedEof)))
    );
}

#[test]
fn connection_state_machine() {
    let mut state = ConnectionState::new();
    assert_eq!(state, ConnectionState::Connecting);
    state.on_connected();
    assert_eq!(state, ConnectionState::Authenticating);
    state.on_auth_reply();
    assert_eq!(state, ConnectionState::Ready);
    state.on_fatal();
    assert_eq!(state, ConnectionState::Closed);
    assert!(!state.is_ready());
}

#[test]
fn version_negotiation_takes_the_minimum() {
    assert_eq!(negotiate_version(8, 8), 8);
    assert_eq!(negotiate_version(8, 35), 8);
    assert_eq!(negotiate_version(13, 8), 8);
}

#[test]
fn command_kind_codes_match_the_upstream_table() {
    assert_eq!(CommandKind::Error.to_u32(), 0);
    assert_eq!(CommandKind::Reply.to_u32(), 2);
    assert_eq!(CommandKind::CreatePlaybackStream.to_u32(), 3);
    assert_eq!(CommandKind::Auth.to_u32(), 8);
    assert_eq!(CommandKind::PlaySample.to_u32(), 18);
    assert_eq!(CommandKind::GetServerInfo.to_u32(), 20);
    assert_eq!(CommandKind::Request.to_u32(), 61);
    assert_eq!(CommandKind::SubscribeEvent.to_u32(), 66);
    assert_eq!(CommandKind::Started.to_u32(), 86);
    assert_eq!(CommandKind::RegisterMemFdShmId.to_u32(), 103);
    assert_eq!(CommandKind::from_u32(104), None);
    assert_eq!(CommandKind::from_u32(2), Some(CommandKind::Reply));
}

#[test]
fn error_kind_codes_match_the_upstream_table() {
    assert_eq!(ErrorKind::NoError.to_u32(), 0);
    assert_eq!(ErrorKind::Access.to_u32(), 1);
    assert_eq!(ErrorKind::Busy.to_u32(), 26);
    assert_eq!(ErrorKind::from_u32(27), None);
    assert_eq!(ErrorKind::from_u32(1), Some(ErrorKind::Access));
}
