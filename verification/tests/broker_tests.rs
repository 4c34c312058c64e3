use bytes::BytesMut;
use repulse::broker::{Broker, Dispatch};
use repulse::command::CommandKind;
use repulse::error::{CloseCause, Error, ErrorKind, IoKind};
use repulse::frame::{Frame, COMMAND_CHANNEL};
use repulse::tag_struct::TagStruct;
use repulse::INVALID_INDEX;

fn data_frame(channel: u32, payload: &[u8]) -> Frame {
    Frame {
        channel,
        offset_hi: 0,
        offset_low: 0,
        flags: 0,
        data: BytesMut::from(payload),
    }
}

/// A server-sent command frame: kind, tag, then the given extra values.
fn server_frame(kind: CommandKind, tag: u32, extra: &mut TagStruct) -> Frame {
    let mut ts = TagStruct::new();
    ts.put_u32(kind.to_u32());
    ts.put_u32(tag);
    while !extra.is_empty() {
        ts.put_value(extra.pop_value().unwrap());
    }
    Frame::command(&ts).unwrap()
}

#[test]
fn allocated_tags_are_fresh() {
    let mut broker = Broker::new(16);
    let t1 = broker.send_command(CommandKind::GetServerInfo, TagStruct::new()).unwrap();
    let t2 = broker.send_command(CommandKind::GetServerInfo, TagStruct::new()).unwrap();
    assert_ne!(t1, t2);
    assert_ne!(t1, INVALID_INDEX);
    assert_ne!(t2, INVALID_INDEX);
}

#[test]
fn allocation_skips_the_reserved_tag() {
    let mut broker = Broker::new(16);
    broker.next_tag = INVALID_INDEX - 1;
    let t = broker.allocate_tag().unwrap();
    assert_ne!(t, INVALID_INDEX);
    let t2 = broker.allocate_tag().unwrap();
    assert_ne!(t2, INVALID_INDEX);
}

#[test]
fn queue_accepts_capacity_then_refuses() {
    let mut broker = Broker::new(3);
    for _ in 0..3 {
        broker.send_frame(data_frame(7, b"pcm")).unwrap();
    }
    assert_eq!(broker.send_frame(data_frame(7, b"pcm")), Err(Error::QueueFull));
    // the writer drains in FIFO order, making room again
    let f = broker.dequeue_frame().unwrap();
    assert_eq!(f.channel, 7);
    broker.send_frame(data_frame(7, b"pcm")).unwrap();
}

#[test]
fn send_command_enqueues_one_command_frame() {
    let mut broker = Broker::new(4);
    let mut body = TagStruct::new();
    body.put_u32(77);
    let tag = broker.send_command(CommandKind::GetServerInfo, body).unwrap();
    let frame = broker.dequeue_frame().unwrap();
    assert_eq!(frame.channel, COMMAND_CHANNEL);
    let mut payload = TagStruct::parse(&frame.data[..]).unwrap();
    assert_eq!(payload.pop_u32().unwrap(), CommandKind::GetServerInfo.to_u32());
    assert_eq!(payload.pop_u32().unwrap(), tag);
    assert_eq!(payload.pop_u32().unwrap(), 77);
    assert!(payload.is_empty());
}

#[test]
fn reply_resolves_the_pending_request() {
    let mut broker = Broker::new(4);
    let tag = broker.send_command(CommandKind::GetServerInfo, TagStruct::new()).unwrap();
    let mut extra = TagStruct::new();
    extra.put_u32(42);
    let reply = server_frame(CommandKind::Reply, tag, &mut extra);
    match broker.on_frame(reply).unwrap() {
        Dispatch::Reply { tag: t, mut payload } => {
            assert_eq!(t, tag);
            assert_eq!(payload.pop_u32().unwrap(), 42);
        }
        other => panic!("expected a reply dispatch, got another one: {:?}", dispatch_name(&other)),
    }
    // the table holds no entry for the tag any more: a second reply is fatal
    let late = server_frame(CommandKind::Reply, tag, &mut TagStruct::new());
    assert!(matches!(broker.on_frame(late), Err(Error::UnknownTag)));
}

fn dispatch_name(d: &Dispatch) -> &'static str {
    match d {
        Dispatch::Data => "data",
        Dispatch::Reply { .. } => "reply",
        Dispatch::ServerError { .. } => "server error",
        Dispatch::Event { .. } => "event",
        Dispatch::LateReply { .. } => "late reply",
    }
}

#[test]
fn server_error_resolves_the_request_and_broker_survives() {
    let mut broker = Broker::new(4);
    let tag = broker.send_command(CommandKind::GetServerInfo, TagStruct::new()).unwrap();
    let mut body = TagStruct::new();
    body.put_u32(ErrorKind::Access.to_u32());
    let error_frame = server_frame(CommandKind::Error, tag, &mut body);
    match broker.on_frame(error_frame).unwrap() {
        Dispatch::ServerError { tag: t, kind } => {
            assert_eq!(t, tag);
            assert_eq!(kind, ErrorKind::Access);
        }
        other => panic!("expected a server error, got {}", dispatch_name(&other)),
    }
    // the broker stays ready
    broker.send_command(CommandKind::GetServerInfo, TagStruct::new()).unwrap();
}

#[test]
fn unknown_reply_tag_is_fatal() {
    let mut broker = Broker::new(4);
    let frame = server_frame(CommandKind::Reply, 123, &mut TagStruct::new());
    assert!(matches!(broker.on_frame(frame), Err(Error::UnknownTag)));
}

#[test]
fn unknown_command_kind_is_fatal() {
    let mut broker = Broker::new(4);
    let mut ts = TagStruct::new();
    ts.put_u32(9999);
    ts.put_u32(0);
    let frame = Frame::command(&ts).unwrap();
    assert!(matches!(broker.on_frame(frame), Err(Error::UnknownCommand)));
}

#[test]
fn undecodable_payload_is_fatal() {
    let mut broker = Broker::new(4);
    let frame = Frame {
        channel: COMMAND_CHANNEL,
        offset_hi: 0,
        offset_low: 0,
        flags: 0,
        data: BytesMut::from(&[0x50u8][..]),
    };
    assert!(matches!(
        broker.on_frame(frame),
        Err(Error::UnknownValueTag(0x50))
    ));
}

#[test]
fn server_events_are_dispatched_not_fatal() {
    let mut broker = Broker::new(4);
    let frame = server_frame(CommandKind::Request, INVALID_INDEX, &mut TagStruct::new());
    match broker.on_frame(frame).unwrap() {
        Dispatch::Event { kind, tag, .. } => {
            assert_eq!(kind, CommandKind::Request);
            assert_eq!(tag, INVALID_INDEX);
        }
        other => panic!("expected an event, got {}", dispatch_name(&other)),
    }
}

#[test]
fn non_command_frames_take_the_data_path() {
    let mut broker = Broker::new(4);
    assert!(matches!(
        broker.on_frame(data_frame(5, b"pcm")).unwrap(),
        Dispatch::Data
    ));
}

#[test]
fn shutdown_drains_every_pending_request_once() {
    let mut broker = Broker::new(8);
    let t1 = broker.send_command(CommandKind::GetServerInfo, TagStruct::new()).unwrap();
    let t2 = broker.send_command(CommandKind::GetServerInfo, TagStruct::new()).unwrap();
    let t3 = broker.send_command(CommandKind::GetServerInfo, TagStruct::new()).unwrap();
    let cause = CloseCause::Io(IoKind::UnexpectedEof);
    let drained = broker.shutdown(cause);
    assert_eq!(drained, vec![t1, t2, t3]);
    // every later submission fails with the original cause
    assert_eq!(
        broker.send_command(CommandKind::GetServerInfo, TagStruct::new()),
        Err(Error::ConnectionClosed(cause))
    );
    assert_eq!(
        broker.send_frame(data_frame(1, b"x")),
        Err(Error::ConnectionClosed(cause))
    );
    // shutting down twice keeps the first cause and drains nothing
    let drained_again = broker.shutdown(CloseCause::Explicit);
    assert!(drained_again.is_empty());
    assert_eq!(
        broker.send_frame(data_frame(1, b"x")),
        Err(Error::ConnectionClosed(cause))
    );
}

#[test]
fn cancelled_request_turns_reply_into_late_reply() {
    let mut broker = Broker::new(4);
    let tag = broker.send_command(CommandKind::GetServerInfo, TagStruct::new()).unwrap();
    broker.cancel(tag);
    let reply = server_frame(CommandKind::Reply, tag, &mut TagStruct::new());
    match broker.on_frame(reply).unwrap() {
        Dispatch::LateReply { tag: t } => assert_eq!(t, tag),
        other => panic!("expected a late reply, got {}", dispatch_name(&other)),
    }
    // the late reply consumed the cancellation marker; another reply is fatal
    let reply = server_frame(CommandKind::Reply, tag, &mut TagStruct::new());
    assert!(matches!(broker.on_frame(reply), Err(Error::UnknownTag)));
}
