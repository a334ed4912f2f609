use alnp::codec::decode_frame;
use alnp::codec::encode_frame;
use alnp::control::compute_tag;
use alnp::errors::StreamError;
use alnp::keepalive::build_liveness_frame;
use alnp::keepalive::LIVENESS_TAG;
use alnp::messages::ChannelFormat;
use alnp::messages::ChannelGroup;
use alnp::messages::Frame;
use alnp::messages::JsonScalar;
use alnp::messages::JsonValue;
use alnp::messages::MetadataEntry;

fn round_trip(frame: Frame) -> Frame {
    let bytes = encode_frame(&frame).unwrap();
    decode_frame(&bytes).unwrap()
}

#[test]
fn minimal_frame_round_trips() {
    let frame = Frame {
        channel_format: ChannelFormat::Interleaved,
        channels: vec![],
        priority: 0,
        groups: None,
        metadata: None,
    };
    let back = round_trip(frame);
    assert_eq!(back.channels, Vec::<u16>::new());
    assert_eq!(back.priority, 0);
    assert_eq!(back.channel_format, ChannelFormat::Interleaved);
    assert!(back.groups.is_none());
    assert!(back.metadata.is_none());
}

#[test]
fn full_frame_round_trips() {
    let frame = Frame {
        channel_format: ChannelFormat::Planar,
        channels: vec![1, 2, 3, 65535, 0, 2],
        priority: 200,
        groups: Some(vec![
            ChannelGroup { name: b"left".to_vec(), members: vec![1, 3] },
            ChannelGroup { name: b"".to_vec(), members: vec![] },
        ]),
        metadata: Some(vec![
            MetadataEntry {
                key: b"fps".to_vec(),
                value: JsonValue::Scalar(JsonScalar::Int(-30)),
            },
            MetadataEntry {
                key: b"label".to_vec(),
                value: JsonValue::Scalar(JsonScalar::Text(b"front camera".to_vec())),
            },
            MetadataEntry {
                key: b"flags".to_vec(),
                value: JsonValue::Array(vec![
                    JsonValue::Scalar(JsonScalar::Bool(true)),
                    JsonValue::Scalar(JsonScalar::Null),
                    JsonValue::Scalar(JsonScalar::Int(0)),
                    JsonValue::Scalar(JsonScalar::Text(vec![])),
                ]),
            },
        ]),
    };
    let expected = Frame {
        channel_format: ChannelFormat::Planar,
        channels: vec![1, 2, 3, 65535, 0, 2],
        priority: 200,
        groups: Some(vec![
            ChannelGroup { name: b"left".to_vec(), members: vec![1, 3] },
            ChannelGroup { name: b"".to_vec(), members: vec![] },
        ]),
        metadata: Some(vec![
            MetadataEntry {
                key: b"fps".to_vec(),
                value: JsonValue::Scalar(JsonScalar::Int(-30)),
            },
            MetadataEntry {
                key: b"label".to_vec(),
                value: JsonValue::Scalar(JsonScalar::Text(b"front camera".to_vec())),
            },
            MetadataEntry {
                key: b"flags".to_vec(),
                value: JsonValue::Array(vec![
                    JsonValue::Scalar(JsonScalar::Bool(true)),
                    JsonValue::Scalar(JsonScalar::Null),
                    JsonValue::Scalar(JsonScalar::Int(0)),
                    JsonValue::Scalar(JsonScalar::Text(vec![])),
                ]),
            },
        ]),
    };
    assert_eq!(round_trip(frame), expected);
}

#[test]
fn signed_extremes_round_trip() {
    let frame = Frame {
        channel_format: ChannelFormat::Compressed,
        channels: vec![7],
        priority: 1,
        groups: None,
        metadata: Some(vec![
            MetadataEntry {
                key: b"min".to_vec(),
                value: JsonValue::Scalar(JsonScalar::Int(i64::MIN)),
            },
            MetadataEntry {
                key: b"max".to_vec(),
                value: JsonValue::Scalar(JsonScalar::Int(i64::MAX)),
            },
            MetadataEntry {
                key: b"neg".to_vec(),
                value: JsonValue::Scalar(JsonScalar::Int(-1)),
            },
        ]),
    };
    let back = round_trip(frame);
    let metadata = back.metadata.unwrap();
    assert_eq!(metadata[0].value, JsonValue::Scalar(JsonScalar::Int(i64::MIN)));
    assert_eq!(metadata[1].value, JsonValue::Scalar(JsonScalar::Int(i64::MAX)));
    assert_eq!(metadata[2].value, JsonValue::Scalar(JsonScalar::Int(-1)));
}

#[test]
fn many_distinct_channels_round_trip() {
    let channels: Vec<u16> = (0..2048u16).collect();
    let frame = Frame {
        channel_format: ChannelFormat::Interleaved,
        channels: channels.clone(),
        priority: 9,
        groups: None,
        metadata: None,
    };
    let back = round_trip(frame);
    assert_eq!(back.channels, channels);
}

#[test]
fn encoding_has_the_documented_layout() {
    let frame = Frame {
        channel_format: ChannelFormat::Interleaved,
        channels: vec![1, 2],
        priority: 5,
        groups: None,
        metadata: None,
    };
    let bytes = encode_frame(&frame).unwrap();
    // format tag, priority, channel count (LE), channels (LE), no
    // groups, no metadata.
    assert_eq!(bytes, vec![0u8, 5, 2, 0, 1, 0, 2, 0, 0, 0]);
}

#[test]
fn oversized_channel_list_is_too_large() {
    let frame = Frame {
        channel_format: ChannelFormat::Interleaved,
        channels: vec![0u16; 65536],
        priority: 0,
        groups: None,
        metadata: None,
    };
    assert!(matches!(encode_frame(&frame), Err(StreamError::FrameTooLarge)));
}

#[test]
fn oversized_group_name_is_too_large() {
    let frame = Frame {
        channel_format: ChannelFormat::Interleaved,
        channels: vec![],
        priority: 0,
        groups: Some(vec![ChannelGroup { name: vec![0u8; 65536], members: vec![] }]),
        metadata: None,
    };
    assert!(matches!(encode_frame(&frame), Err(StreamError::FrameTooLarge)));
}

#[test]
fn garbage_and_truncated_datagrams_do_not_decode() {
    assert!(decode_frame(&vec![]).is_none());
    assert!(decode_frame(&vec![9u8, 5, 0, 0, 0, 0]).is_none());
    assert!(decode_frame(&vec![0u8, 5, 2, 0, 1, 0]).is_none());
    // A trailing byte after a complete frame is refused too.
    assert!(decode_frame(&vec![0u8, 5, 2, 0, 1, 0, 2, 0, 0, 0, 77]).is_none());
}

#[test]
fn tag_matches_the_keyed_fold() {
    fn fold(acc: u64, bytes: &[u8]) -> u64 {
        let mut a = acc as u128;
        for b in bytes {
            a = (a * 131 + *b as u128) % 0x1_0000_0000_0000_0000u128;
        }
        a as u64
    }
    let key = vec![1u8, 2, 3];
    let msg = vec![10u8, 20, 30, 40];
    let expected = fold(fold(17, &key), &msg);
    assert_eq!(compute_tag(&key, &msg), expected);
    assert_ne!(compute_tag(&vec![1u8, 2, 4], &msg), expected);
}

#[test]
fn liveness_frame_carries_the_session_id() {
    let session_id: u128 = 0x0102_0304_0506_0708_090A_0B0C_0D0E_0F10;
    let bytes = build_liveness_frame(session_id);
    let mut expected = vec![LIVENESS_TAG];
    expected.extend_from_slice(&(session_id as u64).to_le_bytes());
    expected.extend_from_slice(&((session_id >> 64) as u64).to_le_bytes());
    assert_eq!(bytes, expected);
}

#[test]
fn nested_objects_and_floats_round_trip() {
    fn entry(key: &str, value: JsonValue) -> MetadataEntry {
        MetadataEntry { key: key.as_bytes().to_vec(), value }
    }
    let settings = JsonValue::Object(vec![
        alnp::messages::JsonEntry {
            key: b"pan".to_vec(),
            value: JsonValue::Scalar(JsonScalar::Int(30)),
        },
        alnp::messages::JsonEntry {
            key: b"gain".to_vec(),
            value: JsonValue::Scalar(JsonScalar::Float(1.5f64.to_bits())),
        },
        alnp::messages::JsonEntry {
            key: b"roi".to_vec(),
            value: JsonValue::Array(vec![
                JsonValue::Array(vec![
                    JsonValue::Scalar(JsonScalar::Int(0)),
                    JsonValue::Scalar(JsonScalar::Int(1)),
                ]),
                JsonValue::Object(vec![alnp::messages::JsonEntry {
                    key: b"w".to_vec(),
                    value: JsonValue::Scalar(JsonScalar::Int(640)),
                }]),
            ]),
        },
    ]);
    let frame = Frame {
        channel_format: ChannelFormat::Interleaved,
        channels: vec![4],
        priority: 3,
        groups: None,
        metadata: Some(vec![entry("settings", settings)]),
    };
    let back = round_trip(frame);
    let metadata = back.metadata.unwrap();
    assert_eq!(metadata.len(), 1);
    assert_eq!(metadata[0].key, b"settings".to_vec());
    match &metadata[0].value {
        JsonValue::Object(es) => {
            assert_eq!(es.len(), 3);
            assert_eq!(es[0].value, JsonValue::Scalar(JsonScalar::Int(30)));
            assert_eq!(es[1].value, JsonValue::Scalar(JsonScalar::Float(1.5f64.to_bits())));
            match &es[2].value {
                JsonValue::Array(items) => assert_eq!(items.len(), 2),
                other => panic!("expected nested array, got {:?}", other),
            }
        },
        other => panic!("expected object, got {:?}", other),
    }
}
