use bytes::BytesMut;
use repulse::error::Error;
use repulse::frame::{Decoder, Encoder, Frame, COMMAND_CHANNEL};
use repulse::tag_struct::TagStruct;

fn make_frame(channel: u32, payload: &[u8]) -> Frame {
    Frame {
        channel,
        offset_hi: 0,
        offset_low: 0,
        flags: 0,
        data: BytesMut::from(payload),
    }
}

fn encode_to_vec(frame: Frame) -> Vec<u8> {
    let mut dst = BytesMut::new();
    Encoder::new().encode(frame, &mut dst).expect("encoding failed");
    dst.to_vec()
}

#[test]
fn frame_header_layout() {
    let payload = vec![0xABu8; 4000];
    let bytes = encode_to_vec(make_frame(7, &payload));
    assert_eq!(bytes.len(), 20 + 4000);
    assert_eq!(&bytes[0..4], &[0x00, 0x00, 0x0F, 0xA0]); // length 4000
    assert_eq!(&bytes[4..8], &[0, 0, 0, 7]); // channel
    assert_eq!(&bytes[8..12], &[0, 0, 0, 0]); // offset_hi
    assert_eq!(&bytes[12..16], &[0, 0, 0, 0]); // offset_low
    assert_eq!(&bytes[16..20], &[0, 0, 0, 0]); // flags
    assert_eq!(&bytes[20..], &payload[..]);
}

#[test]
fn frame_round_trip() {
    let bytes = encode_to_vec(make_frame(3, b"audio bytes"));
    let mut src = BytesMut::from(&bytes[..]);
    let mut decoder = Decoder::new();
    let frame = decoder
        .decode(&mut src)
        .expect("decode failed")
        .expect("frame should be complete");
    assert_eq!(frame.channel, 3);
    assert_eq!(frame.offset_hi, 0);
    assert_eq!(frame.offset_low, 0);
    assert_eq!(frame.flags, 0);
    assert_eq!(&frame.data[..], b"audio bytes");
    assert_eq!(src.len(), 0);
}

#[test]
fn piecewise_decoding_yields_the_frame_exactly_once() {
    let bytes = encode_to_vec(make_frame(9, b"chunked"));
    let mut decoder = Decoder::new();
    let mut src = BytesMut::new();
    let mut produced = Vec::new();
    for (i, b) in bytes.iter().enumerate() {
        src.extend_from_slice(&[*b]);
        if let Some(frame) = decoder.decode(&mut src).expect("decode failed") {
            produced.push((i, frame));
        }
    }
    assert_eq!(produced.len(), 1);
    let (at, frame) = &produced[0];
    assert_eq!(*at, bytes.len() - 1);
    assert_eq!(frame.channel, 9);
    assert_eq!(&frame.data[..], b"chunked");
    assert!(decoder.decode(&mut src).unwrap().is_none());
}

#[test]
fn two_frames_stay_contiguous_on_the_wire() {
    let first = encode_to_vec(make_frame(1, b"first"));
    let second = encode_to_vec(make_frame(2, b"second"));
    let mut dst = BytesMut::new();
    let mut encoder = Encoder::new();
    encoder.encode(make_frame(1, b"first"), &mut dst).unwrap();
    encoder.encode(make_frame(2, b"second"), &mut dst).unwrap();
    let mut joined = first.clone();
    joined.extend_from_slice(&second);
    assert_eq!(dst.to_vec(), joined);

    let mut src = BytesMut::from(&joined[..]);
    let mut decoder = Decoder::new();
    let a = decoder.decode(&mut src).unwrap().unwrap();
    let b = decoder.decode(&mut src).unwrap().unwrap();
    assert_eq!(&a.data[..], b"first");
    assert_eq!(&b.data[..], b"second");
    assert!(decoder.decode(&mut src).unwrap().is_none());
}

#[test]
fn oversize_length_field_is_rejected() {
    let mut src = BytesMut::from(&[0x80u8, 0, 0, 0][..]);
    let mut decoder = Decoder::new();
    assert!(matches!(
        decoder.decode(&mut src),
        Err(Error::PayloadTooLarge)
    ));
}

#[test]
fn command_frames_use_the_reserved_channel() {
    let mut ts = TagStruct::new();
    ts.put_u32(2);
    ts.put_u32(99);
    let frame = Frame::command(&ts).expect("building the command frame failed");
    assert_eq!(frame.channel, COMMAND_CHANNEL);
    assert!(frame.is_command_frame());
    assert_eq!(frame.offset_hi, 0);
    assert_eq!(frame.offset_low, 0);
    assert_eq!(frame.flags, 0);
    assert_eq!(&frame.data[..], &[0x4C, 0, 0, 0, 2, 0x4C, 0, 0, 0, 99]);
    assert!(!make_frame(7, b"x").is_command_frame());
}
