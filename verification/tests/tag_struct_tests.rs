use repulse::channel::ChannelPosition;
use repulse::error::Error;
use repulse::sample::SampleFormat;
use repulse::tag_struct::{ChannelMap, ChannelVolume, SampleSpec, TagStruct, Value};

fn sample_spec() -> SampleSpec {
    SampleSpec {
        format: SampleFormat::S16LE,
        channels: 2,
        rate: 44100,
    }
}

#[test]
fn round_trip_every_variant() {
    let mut ts = TagStruct::new();
    ts.put_value(Value::Bool(true));
    ts.put_value(Value::Bool(false));
    ts.put_value(Value::U8(0x7F));
    ts.put_value(Value::U32(0xDEADBEEF));
    ts.put_value(Value::U64(0x0102030405060708));
    ts.put_value(Value::S64(-5));
    ts.put_value(Value::Microseconds(1_000_000));
    ts.put_value(Value::String(Some(String::from("hello"))));
    ts.put_value(Value::String(None));
    ts.put_value(Value::Arbitrary(vec![1, 2, 3]));
    ts.put_value(Value::Arbitrary(Vec::new()));
    ts.put_value(Value::SampleSpec(sample_spec()));
    ts.put_value(Value::ChannelMap(ChannelMap {
        positions: vec![ChannelPosition::FrontLeft, ChannelPosition::FrontRight],
    }));
    ts.put_value(Value::ChannelVolume(ChannelVolume {
        volumes: vec![0x10000, 0x8000],
    }));
    ts.put_value(Value::Volume(0x10000));
    ts.put_value(Value::Timeval(12, 34));

    let bytes = ts.to_vec().expect("encoding failed");
    let decoded = TagStruct::parse(&bytes).expect("decoding failed");
    assert_eq!(ts, decoded);
}

#[test]
fn encoded_bytes_are_canonical() {
    let mut ts = TagStruct::new();
    ts.put_u32(0x01020304);
    assert_eq!(ts.to_vec().unwrap(), vec![0x4C, 1, 2, 3, 4]);

    let mut ts = TagStruct::new();
    ts.put_bool(true);
    ts.put_bool(false);
    assert_eq!(ts.to_vec().unwrap(), vec![0x31, 0x30]);

    let mut ts = TagStruct::new();
    ts.put_string(Some(String::from("ab")));
    assert_eq!(ts.to_vec().unwrap(), vec![0x74, 0x61, 0x62, 0x00]);

    let mut ts = TagStruct::new();
    ts.put_string(None);
    assert_eq!(ts.to_vec().unwrap(), vec![0x4E]);

    let mut ts = TagStruct::new();
    ts.put_arbitrary(vec![9, 8]);
    assert_eq!(ts.to_vec().unwrap(), vec![0x78, 0, 0, 0, 2, 9, 8]);

    let mut ts = TagStruct::new();
    ts.put_sample_spec(sample_spec());
    assert_eq!(ts.to_vec().unwrap(), vec![0x61, 3, 2, 0, 0, 0xAC, 0x44]);
}

#[test]
fn string_truncates_at_first_nul() {
    let mut ts = TagStruct::new();
    ts.put_string(Some(String::from("a\0b")));
    let bytes = ts.to_vec().unwrap();
    assert_eq!(bytes, vec![0x74, 0x61, 0x00]);

    let mut decoded = TagStruct::parse(&bytes).unwrap();
    assert_eq!(decoded.pop_string().unwrap(), Some(String::from("a")));
    assert!(decoded.is_empty());
}

#[test]
fn empty_string_round_trips() {
    let mut ts = TagStruct::new();
    ts.put_string(Some(String::new()));
    let bytes = ts.to_vec().unwrap();
    assert_eq!(bytes, vec![0x74, 0x00]);
    let mut decoded = TagStruct::parse(&bytes).unwrap();
    assert_eq!(decoded.pop_string().unwrap(), Some(String::new()));
}

#[test]
fn channel_map_clamps_on_encode() {
    let mut ts = TagStruct::new();
    ts.put_channel_map(ChannelMap {
        positions: vec![ChannelPosition::Mono; 33],
    });
    let bytes = ts.to_vec().unwrap();
    assert_eq!(bytes[1], 32);
    assert_eq!(bytes.len(), 2 + 32);
}

#[test]
fn channel_map_count_rejected_on_decode() {
    let mut bytes = vec![0x6D, 33];
    bytes.extend(std::iter::repeat(0u8).take(33));
    assert_eq!(TagStruct::parse(&bytes), Err(Error::Decode));
}

#[test]
fn channel_volume_round_trips() {
    let mut ts = TagStruct::new();
    ts.put_channel_volume(ChannelVolume {
        volumes: vec![0x10000, 0x10000],
    });
    let bytes = ts.to_vec().unwrap();
    assert_eq!(bytes, vec![0x76, 2, 0, 1, 0, 0, 0, 1, 0, 0]);
    let mut decoded = TagStruct::parse(&bytes).unwrap();
    match decoded.pop_value().unwrap() {
        Value::ChannelVolume(cv) => assert_eq!(cv.volumes, vec![0x10000, 0x10000]),
        other => panic!("expected a channel volume, got {:?}", other),
    }
}

#[test]
fn unknown_tag_byte_is_reported() {
    assert_eq!(
        TagStruct::parse(&[0x50]),
        Err(Error::UnknownValueTag(0x50))
    );
}

#[test]
fn truncated_body_fails() {
    assert_eq!(TagStruct::parse(&[0x4C, 0, 0]), Err(Error::Decode));
    assert_eq!(TagStruct::parse(&[0x74, 0x61]), Err(Error::Decode));
    assert_eq!(TagStruct::parse(&[0x78, 0, 0, 0, 9, 1]), Err(Error::Decode));
}

#[test]
fn invalid_utf8_fails() {
    assert_eq!(TagStruct::parse(&[0x74, 0xFF, 0x00]), Err(Error::Decode));
}

#[test]
fn unknown_sample_format_fails() {
    assert_eq!(
        TagStruct::parse(&[0x61, 20, 2, 0, 0, 0xAC, 0x44]),
        Err(Error::Decode)
    );
}

#[test]
fn pop_checks_the_variant() {
    let mut ts = TagStruct::new();
    ts.put_u32(5);
    assert_eq!(ts.pop_bool(), Err(Error::Decode));
    assert!(ts.is_empty());
    assert_eq!(ts.pop_u32(), Err(Error::Decode));
}

#[test]
fn pop_is_fifo() {
    let mut ts = TagStruct::new();
    ts.put_u8(1);
    ts.put_u8(2);
    ts.put_u8(3);
    assert_eq!(ts.pop_u8().unwrap(), 1);
    assert_eq!(ts.pop_u8().unwrap(), 2);
    assert_eq!(ts.pop_u8().unwrap(), 3);
    assert!(ts.is_empty());
}

#[test]
fn truncate_helper_cuts_at_nul() {
    assert_eq!(
        repulse::tag_struct::truncate_to_before_first_null("abc\0def"),
        String::from("abc")
    );
    assert_eq!(
        repulse::tag_struct::truncate_to_before_first_null("abc"),
        String::from("abc")
    );
    assert_eq!(
        repulse::tag_struct::truncate_to_before_first_null("\0abc"),
        String::new()
    );
}

#[test]
fn wire_code_tables_match_the_protocol() {
    assert_eq!(SampleFormat::S16LE.to_u8(), 3);
    assert_eq!(SampleFormat::INVALID.to_u8(), 0xFF);
    assert_eq!(SampleFormat::from_u8(12), Some(SampleFormat::S24_32BE));
    assert_eq!(SampleFormat::from_u8(13), None);
    assert_eq!(ChannelPosition::Mono.to_u8(), 0);
    assert_eq!(ChannelPosition::Aux31.to_u8(), 43);
    assert_eq!(ChannelPosition::TopRearCenter.to_u8(), 50);
    assert_eq!(ChannelPosition::Invalid.to_u8(), 0xFF);
    assert_eq!(ChannelPosition::from_u8(51), None);
    assert_eq!(ChannelPosition::from_u8(7), Some(ChannelPosition::Lfe));
}
