use std::cell::RefCell;
use std::rc::Rc;

use alnp::client::AlpineClient;
use alnp::codec::decode_frame;
use alnp::control::verify_envelope;
use alnp::control::ControlClient;
use alnp::errors::ClientError;
use alnp::errors::HandshakeError;
use alnp::errors::StreamError;
use alnp::handshake::begin_handshake;
use alnp::handshake::respond_handshake;
use alnp::handshake::HandshakeEvent;
use alnp::handshake::Hello;
use alnp::handshake::HelloReply;
use alnp::messages::CapabilitySet;
use alnp::messages::ChannelFormat;
use alnp::messages::ControlOp;
use alnp::messages::DeviceIdentity;
use alnp::messages::JsonEntry;
use alnp::messages::JsonScalar;
use alnp::messages::JsonValue;
use alnp::session::AlnpSession;
use alnp::session::SessionKeys;
use alnp::session::SessionState;
use alnp::stream::FrameTransport;

fn caps(video: bool, audio: bool, telemetry: bool, command: bool) -> CapabilitySet {
    CapabilitySet { video, audio, telemetry, command }
}

fn ident(id: &str) -> DeviceIdentity {
    DeviceIdentity { device_id: id.to_string(), display_name: "unit device".to_string() }
}

/// Drives a full successful handshake between an initiator and a
/// responder that share everything, and hands back both sessions.
fn run_handshake(peer_device_id: &str) -> (AlnpSession, AlnpSession) {
    let initiator_eph = vec![1u8, 2, 3, 4];
    let responder_eph = vec![9u8, 8, 7];
    let challenge = vec![0x55u8, 0xAA];
    let shared = vec![42u8; 8];

    let start = begin_handshake(
        ident("11111111-2222-3333-4444-555555555555"),
        caps(true, false, true, false),
        initiator_eph.clone(),
    );
    let reply = HelloReply {
        hello: Hello {
            identity: ident(peer_device_id),
            capabilities: caps(true, true, false, false),
            ephemeral_public: responder_eph.clone(),
        },
        challenge: challenge.clone(),
    };
    let pending_initiator = start.on_reply(HandshakeEvent::Received(reply)).unwrap();

    let pending_responder = respond_handshake(
        &ident(peer_device_id),
        caps(true, true, false, false),
        &responder_eph,
        HandshakeEvent::Received(Hello {
            identity: ident("11111111-2222-3333-4444-555555555555"),
            capabilities: caps(true, false, true, false),
            ephemeral_public: initiator_eph.clone(),
        }),
        &challenge,
    )
    .unwrap();

    assert_eq!(pending_initiator.transcript(), pending_responder.transcript());

    let initiator = pending_initiator
        .complete(shared.clone(), HandshakeEvent::Received(true))
        .unwrap();
    let responder = pending_responder
        .complete(shared.clone(), HandshakeEvent::Received(true))
        .unwrap();
    (initiator, responder)
}

#[test]
fn handshake_yields_matching_keys_on_both_ends() {
    let (initiator, responder) = run_handshake("936da01f-9abd-4d9d-80c7-02af85c822a8");
    let ki = initiator.keys().unwrap();
    let kr = responder.keys().unwrap();
    assert_eq!(ki.material, kr.material);
    assert!(!ki.material.is_empty());
}

#[test]
fn distinct_challenges_yield_distinct_keys() {
    let eph_i = vec![1u8, 2, 3, 4];
    let eph_r = vec![9u8, 8, 7];
    let shared = vec![42u8; 8];
    let mut keys = Vec::new();
    for challenge in [vec![0u8, 1], vec![0u8, 2]] {
        let start = begin_handshake(ident("a"), caps(true, false, false, false), eph_i.clone());
        let reply = HelloReply {
            hello: Hello {
                identity: ident("b"),
                capabilities: caps(true, false, false, false),
                ephemeral_public: eph_r.clone(),
            },
            challenge,
        };
        let pending = start.on_reply(HandshakeEvent::Received(reply)).unwrap();
        let session = pending
            .complete(shared.clone(), HandshakeEvent::Received(true))
            .unwrap();
        keys.push(session.keys().unwrap().material.clone());
    }
    assert_ne!(keys[0], keys[1]);
}

#[test]
fn failed_signature_verification_is_authentication_failed() {
    let start = begin_handshake(ident("a"), caps(true, false, false, false), vec![1u8]);
    let reply = HelloReply {
        hello: Hello {
            identity: ident("b"),
            capabilities: caps(true, false, false, false),
            ephemeral_public: vec![2u8],
        },
        challenge: vec![3u8],
    };
    let pending = start.on_reply(HandshakeEvent::Received(reply)).unwrap();
    let outcome = pending.complete(vec![42u8], HandshakeEvent::Received(false));
    match outcome {
        Err(HandshakeError::AuthenticationFailed) => {},
        other => panic!("expected AuthenticationFailed, got {:?}", other.map(|_| ())),
    }
}

#[test]
fn timeout_during_reply_is_timeout() {
    let start = begin_handshake(ident("a"), caps(true, false, false, false), vec![1u8]);
    let outcome = start.on_reply(HandshakeEvent::TimedOut);
    assert!(matches!(outcome, Err(HandshakeError::Timeout)));
}

#[test]
fn timeout_during_auth_is_timeout() {
    let start = begin_handshake(ident("a"), caps(true, false, false, false), vec![1u8]);
    let reply = HelloReply {
        hello: Hello {
            identity: ident("b"),
            capabilities: caps(true, false, false, false),
            ephemeral_public: vec![2u8],
        },
        challenge: vec![3u8],
    };
    let pending = start.on_reply(HandshakeEvent::Received(reply)).unwrap();
    let outcome = pending.complete(vec![42u8], HandshakeEvent::TimedOut);
    assert!(matches!(outcome, Err(HandshakeError::Timeout)));
}

#[test]
fn malformed_reply_is_protocol_violation() {
    let start = begin_handshake(ident("a"), caps(true, false, false, false), vec![1u8]);
    let outcome = start.on_reply(HandshakeEvent::Malformed);
    assert!(matches!(outcome, Err(HandshakeError::ProtocolViolation)));
}

#[test]
fn disjoint_capabilities_are_incompatible() {
    let start = begin_handshake(ident("a"), caps(true, false, true, false), vec![1u8]);
    let reply = HelloReply {
        hello: Hello {
            identity: ident("b"),
            capabilities: caps(false, true, false, true),
            ephemeral_public: vec![2u8],
        },
        challenge: vec![3u8],
    };
    let outcome = start.on_reply(HandshakeEvent::Received(reply));
    assert!(matches!(outcome, Err(HandshakeError::IncompatibleCapabilities)));
}

#[test]
fn close_twice_is_idempotent() {
    let (mut session, _) = run_handshake("936da01f-9abd-4d9d-80c7-02af85c822a8");
    assert!(session.established().is_some());
    session.close();
    assert!(session.established().is_none());
    assert!(session.keys().is_none());
    session.close();
    assert!(matches!(session.state, SessionState::Closed));
}

#[test]
fn replayed_sequence_is_stale() {
    let keys = SessionKeys { material: vec![7u8, 7, 7, 7] };
    let control = ControlClient::new(
        1,
        99,
        Some(SessionKeys { material: vec![7u8, 7, 7, 7] }),
    );
    let env = control
        .envelope(5, ControlOp::Command, JsonValue::Scalar(JsonScalar::Int(12)))
        .unwrap();
    assert!(verify_envelope(&keys, 99, 0, &env).is_ok());
    let replay = verify_envelope(&keys, 99, env.sequence, &env);
    assert!(matches!(replay, Err(HandshakeError::StaleSequence)));
}

#[test]
fn non_increasing_sequence_is_stale() {
    let keys = SessionKeys { material: vec![1u8, 2, 3] };
    let control = ControlClient::new(1, 7, Some(SessionKeys { material: vec![1u8, 2, 3] }));
    let env = control
        .envelope(3, ControlOp::Query, JsonValue::Scalar(JsonScalar::Null))
        .unwrap();
    assert!(matches!(verify_envelope(&keys, 7, 3, &env), Err(HandshakeError::StaleSequence)));
    assert!(matches!(verify_envelope(&keys, 7, 8, &env), Err(HandshakeError::StaleSequence)));
    assert!(verify_envelope(&keys, 7, 2, &env).is_ok());
}

#[test]
fn tampered_tag_is_authentication_failed() {
    let keys = SessionKeys { material: vec![1u8, 2, 3] };
    let control = ControlClient::new(1, 7, Some(SessionKeys { material: vec![1u8, 2, 3] }));
    let mut env = control
        .envelope(3, ControlOp::Notify, JsonValue::Scalar(JsonScalar::Bool(true)))
        .unwrap();
    env.tag = env.tag.wrapping_add(1);
    assert!(matches!(
        verify_envelope(&keys, 7, 0, &env),
        Err(HandshakeError::AuthenticationFailed)
    ));
}

#[test]
fn wrong_session_keys_fail_verification() {
    let control = ControlClient::new(1, 7, Some(SessionKeys { material: vec![1u8, 2, 3] }));
    let env = control
        .envelope(3, ControlOp::Ack, JsonValue::Scalar(JsonScalar::Null))
        .unwrap();
    let other_keys = SessionKeys { material: vec![1u8, 2, 4] };
    assert!(matches!(
        verify_envelope(&other_keys, 7, 0, &env),
        Err(HandshakeError::AuthenticationFailed)
    ));
}

#[test]
fn envelope_without_keys_is_keys_missing() {
    let control = ControlClient::new(1, 7, None);
    let outcome = control.envelope(1, ControlOp::Query, JsonValue::Scalar(JsonScalar::Null));
    assert!(matches!(outcome, Err(HandshakeError::KeysMissing)));
}

#[test]
fn oversized_payload_is_protocol_violation() {
    let control = ControlClient::new(1, 7, Some(SessionKeys { material: vec![1u8] }));
    let big = JsonValue::Scalar(JsonScalar::Text(vec![0u8; 70_000]));
    let outcome = control.envelope(1, ControlOp::Query, big);
    assert!(matches!(outcome, Err(HandshakeError::ProtocolViolation)));
}

#[derive(Clone)]
struct RecordingTransport {
    sent: Rc<RefCell<Vec<Vec<u8>>>>,
}

impl RecordingTransport {
    fn new() -> Self {
        RecordingTransport { sent: Rc::new(RefCell::new(Vec::new())) }
    }
}

impl FrameTransport for RecordingTransport {
    fn send_frame(&self, bytes: &[u8]) -> Result<(), String> {
        self.sent.borrow_mut().push(bytes.to_vec());
        Ok(())
    }
}

struct RefusingTransport;

impl FrameTransport for RefusingTransport {
    fn send_frame(&self, _bytes: &[u8]) -> Result<(), String> {
        Err("socket closed".to_string())
    }
}

#[test]
fn connected_client_streams_one_decodable_datagram() {
    let (session, _) = run_handshake("936da01f-9abd-4d9d-80c7-02af85c822a8");
    let transport = RecordingTransport::new();
    let sent = transport.sent.clone();
    let client = AlpineClient::connect(session, transport).unwrap();

    client
        .send_frame(ChannelFormat::Interleaved, vec![1, 2], 5, None, None)
        .unwrap();

    let datagrams = sent.borrow();
    assert_eq!(datagrams.len(), 1);
    let frame = decode_frame(&datagrams[0]).unwrap();
    assert_eq!(frame.channels, vec![1, 2]);
    assert_eq!(frame.priority, 5);
    assert_eq!(frame.channel_format, ChannelFormat::Interleaved);
    assert!(frame.groups.is_none());
    assert!(frame.metadata.is_none());
}

#[test]
fn client_device_uuid_comes_from_peer_identity() {
    let (session, _) = run_handshake("936da01f-9abd-4d9d-80c7-02af85c822a8");
    let client = AlpineClient::connect(session, RecordingTransport::new()).unwrap();
    let expected = uuid::Uuid::parse_str("936da01f-9abd-4d9d-80c7-02af85c822a8")
        .unwrap()
        .as_u128();
    assert_eq!(client.control.device_uuid, expected);
}

#[test]
fn unparsable_peer_identity_falls_back_to_generated_uuid() {
    let (session, _) = run_handshake("not-a-uuid");
    let client = AlpineClient::connect(session, RecordingTransport::new()).unwrap();
    let reserved = uuid::Uuid::parse_str("not-a-uuid");
    assert!(reserved.is_err());
    assert!(client.keepalive.active);
}

#[test]
fn failed_authentication_leaves_no_client_or_background_task() {
    let start = begin_handshake(ident("a"), caps(true, false, true, false), vec![1u8]);
    let reply = HelloReply {
        hello: Hello {
            identity: ident("b"),
            capabilities: caps(true, true, false, false),
            ephemeral_public: vec![2u8],
        },
        challenge: vec![3u8],
    };
    let pending = start.on_reply(HandshakeEvent::Received(reply)).unwrap();
    let outcome = pending.complete(vec![42u8], HandshakeEvent::Received(false));
    let err = outcome.err().unwrap();
    assert!(matches!(err, HandshakeError::AuthenticationFailed));
    let client_err = ClientError::from(err);
    assert!(matches!(
        client_err,
        ClientError::Handshake(HandshakeError::AuthenticationFailed)
    ));
    // Only an Established session yields a client (and with it a
    // keepalive); a session that never established is refused.
    let refused = AlpineClient::connect(AlnpSession::connecting(), RecordingTransport::new());
    assert!(matches!(refused, Err(ClientError::Io(_))));
}

#[test]
fn client_close_twice_stops_session_and_keepalive() {
    let (session, _) = run_handshake("936da01f-9abd-4d9d-80c7-02af85c822a8");
    let mut client = AlpineClient::connect(session, RecordingTransport::new()).unwrap();
    assert!(client.keepalive.active);
    client.close();
    assert!(matches!(client.session.state, SessionState::Closed));
    assert!(!client.keepalive.active);
    let after = client.control_envelope(1, ControlOp::Query, JsonValue::Scalar(JsonScalar::Null));
    assert!(matches!(after, Err(HandshakeError::KeysMissing)));
    assert!(client.stream.view.keys.material.is_empty());
    client.close();
    assert!(matches!(client.session.state, SessionState::Closed));
    assert!(!client.keepalive.active);
}

#[test]
fn transcript_binds_identities_and_capabilities() {
    let base_reply = |capabilities: CapabilitySet, device_id: &str| HelloReply {
        hello: Hello {
            identity: ident(device_id),
            capabilities,
            ephemeral_public: vec![2u8],
        },
        challenge: vec![3u8],
    };
    let transcript_for = |capabilities: CapabilitySet, device_id: &str| {
        let start = begin_handshake(ident("a"), caps(true, true, false, false), vec![1u8]);
        start
            .on_reply(HandshakeEvent::Received(base_reply(capabilities, device_id)))
            .unwrap()
            .transcript()
            .clone()
    };
    let original = transcript_for(caps(true, true, false, false), "b");
    let downgraded = transcript_for(caps(true, false, false, false), "b");
    let renamed = transcript_for(caps(true, true, false, false), "c");
    assert_ne!(original, downgraded);
    assert_ne!(original, renamed);
}

#[test]
fn transport_refusal_surfaces_as_stream_error() {
    let (session, _) = run_handshake("936da01f-9abd-4d9d-80c7-02af85c822a8");
    let client = AlpineClient::connect(session, RefusingTransport).unwrap();
    let outcome = client.send_frame(ChannelFormat::Planar, vec![1], 0, None, None);
    match outcome {
        Err(ClientError::Stream(StreamError::Transport(msg))) => {
            assert_eq!(msg, "socket closed");
        },
        other => panic!("expected transport error, got {:?}", other),
    }
}

#[test]
fn oversized_frame_is_refused_before_the_transport() {
    let (session, _) = run_handshake("936da01f-9abd-4d9d-80c7-02af85c822a8");
    let transport = RecordingTransport::new();
    let sent = transport.sent.clone();
    let client = AlpineClient::connect(session, transport).unwrap();
    let outcome = client.send_frame(
        ChannelFormat::Compressed,
        vec![0u16; 70_000],
        1,
        None,
        None,
    );
    assert!(matches!(
        outcome,
        Err(ClientError::Stream(StreamError::FrameTooLarge))
    ));
    assert_eq!(sent.borrow().len(), 0);
}

#[test]
fn object_payload_is_authenticated_and_verified() {
    let make_payload = |pan: i64| {
        JsonValue::Object(vec![JsonEntry {
            key: b"pan".to_vec(),
            value: JsonValue::Scalar(JsonScalar::Int(pan)),
        }])
    };
    let keys = SessionKeys { material: vec![5u8, 6, 7] };
    let control = ControlClient::new(1, 11, Some(SessionKeys { material: vec![5u8, 6, 7] }));
    let env = control.envelope(2, ControlOp::Command, make_payload(30)).unwrap();
    assert!(verify_envelope(&keys, 11, 1, &env).is_ok());
    // The tag binds the payload: the same envelope with a different
    // object does not verify.
    let altered = alnp::control::ControlEnvelope {
        sequence: env.sequence,
        op: env.op,
        payload: make_payload(31),
        tag: env.tag,
    };
    assert!(matches!(
        verify_envelope(&keys, 11, 1, &altered),
        Err(HandshakeError::AuthenticationFailed)
    ));
}
