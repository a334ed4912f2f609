//! The authenticated handshake engine: a challenge-response ephemeral key
//! exchange, driven by events. Transport, cryptography, and timing live
//! outside; the engine decides, from each event, whether the handshake
//! proceeds, with which transcript and negotiated capabilities, and which
//! error ends it.

use vstd::prelude::*;
use vstd::utf8::encode_utf8;

use crate::errors::HandshakeError;
use crate::ids::fresh_uuid;
use crate::messages::CapabilitySet;
use crate::messages::DeviceIdentity;
use crate::session::AlnpSession;
use crate::session::EstablishedView;
use crate::session::SessionKeys;
use crate::session::SessionState;

verus! {

/// What one message exchange produced: the expected message, a deadline
/// overrun, or bytes that did not decode.
pub enum HandshakeEvent<T> {
    Received(T),
    TimedOut,
    Malformed,
}

/// A party's opening message: identity, offered capabilities, and its
/// ephemeral public key for this handshake.
pub struct Hello {
    pub identity: DeviceIdentity,
    pub capabilities: CapabilitySet,
    pub ephemeral_public: Vec<u8>,
}

/// The responder's reply: its own hello plus a random challenge nonce.
pub struct HelloReply {
    pub hello: Hello,
    pub challenge: Vec<u8>,
}

/// Mathematical model of a hello: the identity's character data, the
/// offered capabilities, and the ephemeral public key.
#[verifier::ext_equal]
pub ghost struct HelloV {
    pub device_id: Seq<char>,
    pub display_name: Seq<char>,
    pub capabilities: CapabilitySet,
    pub ephemeral_public: Seq<u8>,
}

impl View for Hello {
    type V = HelloV;

    open spec fn view(&self) -> HelloV {
        HelloV {
            device_id: self.identity.device_id@,
            display_name: self.identity.display_name@,
            capabilities: self.capabilities,
            ephemeral_public: self.ephemeral_public@,
        }
    }
}

/// One byte carrying the four capability flags.
pub open spec fn caps_byte(c: CapabilitySet) -> u8 {
    (if c.video {
        1u8
    } else {
        0u8
    }) | (if c.audio {
        2u8
    } else {
        0u8
    }) | (if c.telemetry {
        4u8
    } else {
        0u8
    }) | (if c.command {
        8u8
    } else {
        0u8
    })
}

/// A length-prefixed field of the transcript.
pub open spec fn field_bytes(s: Seq<u8>) -> Seq<u8> {
    crate::codec::enc_u64(s.len() as u64) + s
}

/// The byte image of one hello as the transcript binds it: both identity
/// fields as length-prefixed UTF-8, the capability flags, and the
/// length-prefixed ephemeral public key.
pub open spec fn hello_bytes(h: HelloV) -> Seq<u8> {
    field_bytes(encode_utf8(h.device_id)) + field_bytes(encode_utf8(h.display_name)) + seq![
        caps_byte(h.capabilities),
    ] + field_bytes(h.ephemeral_public)
}

/// The transcript binds both hello messages whole — identities, offered
/// capabilities, and ephemeral public keys — and the challenge, the
/// initiator's hello first. Each side signs it with its long-term
/// credential, so neither hello can be altered in transit without the
/// signatures failing.
pub open spec fn transcript_of(initiator: HelloV, responder: HelloV, challenge: Seq<u8>) -> Seq<
    u8,
> {
    hello_bytes(initiator) + hello_bytes(responder) + challenge
}

/// Session key material binds the agreed secret and the whole transcript,
/// so two handshakes with distinct challenges derive distinct keys even
/// where the key-agreement inputs repeat. The binding is concatenation,
/// a model standing in for a key-derivation function, which would be an
/// external cryptographic collaborator.
pub open spec fn keys_of(shared_secret: Seq<u8>, transcript: Seq<u8>) -> Seq<u8> {
    shared_secret + transcript
}

fn caps_byte_ex(c: &CapabilitySet) -> (r: u8)
    ensures
        r == caps_byte(*c),
{
    (if c.video {
        1u8
    } else {
        0u8
    }) | (if c.audio {
        2u8
    } else {
        0u8
    }) | (if c.telemetry {
        4u8
    } else {
        0u8
    }) | (if c.command {
        8u8
    } else {
        0u8
    })
}

fn push_field(out: &mut Vec<u8>, src: &[u8])
    ensures
        final(out)@ == old(out)@ + field_bytes(src@),
{
    crate::codec::push_u64(out, src.len() as u64);
    let ghost base = out@;
    let mut k: usize = 0;
    while k < src.len()
        invariant
            k <= src@.len(),
            out@ == base + src@.subrange(0, k as int),
        decreases src@.len() - k,
    {
        out.push(src[k]);
        proof {
            assert(base + src@.subrange(0, k as int + 1) =~= (base + src@.subrange(
                0,
                k as int,
            )).push(src@[k as int]));
        }
        k = k + 1;
    }
    assert(src@.subrange(0, src@.len() as int) =~= src@);
    assert(final(out)@ =~= old(out)@ + field_bytes(src@));
}

fn push_hello(
    out: &mut Vec<u8>,
    identity: &DeviceIdentity,
    capabilities: &CapabilitySet,
    ephemeral_public: &Vec<u8>,
)
    ensures
        final(out)@ == old(out)@ + hello_bytes(
            HelloV {
                device_id: identity.device_id@,
                display_name: identity.display_name@,
                capabilities: *capabilities,
                ephemeral_public: ephemeral_public@,
            },
        ),
{
    push_field(out, identity.device_id.as_str().as_bytes());
    push_field(out, identity.display_name.as_str().as_bytes());
    out.push(caps_byte_ex(capabilities));
    push_field(out, ephemeral_public.as_slice());
    assert(final(out)@ =~= old(out)@ + hello_bytes(
        HelloV {
            device_id: identity.device_id@,
            display_name: identity.display_name@,
            capabilities: *capabilities,
            ephemeral_public: ephemeral_public@,
        },
    ));
}

fn build_transcript(
    initiator_identity: &DeviceIdentity,
    initiator_capabilities: &CapabilitySet,
    initiator_ephemeral: &Vec<u8>,
    responder_identity: &DeviceIdentity,
    responder_capabilities: &CapabilitySet,
    responder_ephemeral: &Vec<u8>,
    challenge: &Vec<u8>,
) -> (r: Vec<u8>)
    ensures
        r@ == transcript_of(
            HelloV {
                device_id: initiator_identity.device_id@,
                display_name: initiator_identity.display_name@,
                capabilities: *initiator_capabilities,
                ephemeral_public: initiator_ephemeral@,
            },
            HelloV {
                device_id: responder_identity.device_id@,
                display_name: responder_identity.display_name@,
                capabilities: *responder_capabilities,
                ephemeral_public: responder_ephemeral@,
            },
            challenge@,
        ),
{
    let mut out: Vec<u8> = Vec::new();
    push_hello(&mut out, initiator_identity, initiator_capabilities, initiator_ephemeral);
    push_hello(&mut out, responder_identity, responder_capabilities, responder_ephemeral);
    crate::codec::push_raw(&mut out, challenge);
    assert(out@ =~= transcript_of(
        HelloV {
            device_id: initiator_identity.device_id@,
            display_name: initiator_identity.display_name@,
            capabilities: *initiator_capabilities,
            ephemeral_public: initiator_ephemeral@,
        },
        HelloV {
            device_id: responder_identity.device_id@,
            display_name: responder_identity.display_name@,
            capabilities: *responder_capabilities,
            ephemeral_public: responder_ephemeral@,
        },
        challenge@,
    ));
    out
}

/// Derive the session keys both sides compute after mutual
/// authentication.
pub fn derive_session_keys(shared_secret: &Vec<u8>, transcript: &Vec<u8>) -> (r: SessionKeys)
    ensures
        r.material@ == keys_of(shared_secret@, transcript@),
{
    let mut m: Vec<u8> = Vec::new();
    crate::codec::push_raw(&mut m, shared_secret);
    crate::codec::push_raw(&mut m, transcript);
    SessionKeys { material: m }
}

/// An initiator that has sent its hello and awaits the reply.
pub struct HandshakeStart {
    pub local_identity: DeviceIdentity,
    pub local_capabilities: CapabilitySet,
    pub local_ephemeral_public: Vec<u8>,
}

/// Both hellos exchanged and capabilities negotiated; the signatures are
/// still to be exchanged and verified over the transcript.
pub struct PendingAuth {
    pub peer_identity: DeviceIdentity,
    pub negotiated: CapabilitySet,
    pub transcript: Vec<u8>,
}

/// Open a handshake as initiator, recording what the hello declared. The
/// ephemeral public key must come fresh from the key-agreement
/// collaborator for every connect.
pub fn begin_handshake(
    identity: DeviceIdentity,
    capabilities: CapabilitySet,
    ephemeral_public: Vec<u8>,
) -> (r: HandshakeStart)
    ensures
        r.local_identity == identity,
        r.local_capabilities == capabilities,
        r.local_ephemeral_public == ephemeral_public,
{
    HandshakeStart { local_identity: identity, local_capabilities: capabilities, local_ephemeral_public: ephemeral_public }
}

impl HandshakeStart {
    /// The hello this initiator sent, as the transcript binds it.
    pub open spec fn hello_view(self) -> HelloV {
        HelloV {
            device_id: self.local_identity.device_id@,
            display_name: self.local_identity.display_name@,
            capabilities: self.local_capabilities,
            ephemeral_public: self.local_ephemeral_public@,
        }
    }

    /// Take the reply to our hello. A deadline overrun fails with
    /// Timeout, an undecodable reply with ProtocolViolation, and a reply
    /// offering no capability we also offer with
    /// IncompatibleCapabilities; otherwise the handshake proceeds with
    /// the negotiated capabilities and the signing transcript.
    pub fn on_reply(self, event: HandshakeEvent<HelloReply>) -> (r: Result<
        PendingAuth,
        HandshakeError,
    >)
        ensures
            event is TimedOut ==> r == Result::<PendingAuth, HandshakeError>::Err(
                HandshakeError::Timeout,
            ),
            event is Malformed ==> r == Result::<PendingAuth, HandshakeError>::Err(
                HandshakeError::ProtocolViolation,
            ),
            event matches HandshakeEvent::Received(rep) ==> (if self.local_capabilities.spec_intersect(
                rep.hello.capabilities,
            ).spec_is_empty() {
                r == Result::<PendingAuth, HandshakeError>::Err(
                    HandshakeError::IncompatibleCapabilities,
                )
            } else {
                r matches Result::Ok(pa) && pa.negotiated
                    == self.local_capabilities.spec_intersect(rep.hello.capabilities)
                    && pa.transcript@ == transcript_of(
                    self.hello_view(),
                    rep.hello@,
                    rep.challenge@,
                ) && pa.peer_identity == rep.hello.identity
            }),
            r is Ok <==> (event matches HandshakeEvent::Received(rep)
                && !self.local_capabilities.spec_intersect(rep.hello.capabilities).spec_is_empty()),
    {
        match event {
            HandshakeEvent::TimedOut => Result::Err(HandshakeError::Timeout),
            HandshakeEvent::Malformed => Result::Err(HandshakeError::ProtocolViolation),
            HandshakeEvent::Received(rep) => {
                let negotiated = self.local_capabilities.intersect(&rep.hello.capabilities);
                if negotiated.is_empty() {
                    Result::Err(HandshakeError::IncompatibleCapabilities)
                } else {
                    let transcript = build_transcript(
                        &self.local_identity,
                        &self.local_capabilities,
                        &self.local_ephemeral_public,
                        &rep.hello.identity,
                        &rep.hello.capabilities,
                        &rep.hello.ephemeral_public,
                        &rep.challenge,
                    );
                    Result::Ok(
                        PendingAuth {
                            peer_identity: rep.hello.identity,
                            negotiated,
                            transcript,
                        },
                    )
                }
            },
        }
    }
}

/// Take an initiator's hello as responder: negotiate, and compute the
/// same transcript the initiator will sign, binding the initiator's
/// hello, our own hello, and the challenge we sent back.
pub fn respond_handshake(
    local_identity: &DeviceIdentity,
    local_capabilities: CapabilitySet,
    local_ephemeral_public: &Vec<u8>,
    event: HandshakeEvent<Hello>,
    challenge: &Vec<u8>,
) -> (r: Result<PendingAuth, HandshakeError>)
    ensures
        event is TimedOut ==> r == Result::<PendingAuth, HandshakeError>::Err(
            HandshakeError::Timeout,
        ),
        event is Malformed ==> r == Result::<PendingAuth, HandshakeError>::Err(
            HandshakeError::ProtocolViolation,
        ),
        event matches HandshakeEvent::Received(hello) ==> (if local_capabilities.spec_intersect(
            hello.capabilities,
        ).spec_is_empty() {
            r == Result::<PendingAuth, HandshakeError>::Err(
                HandshakeError::IncompatibleCapabilities,
            )
        } else {
            r matches Result::Ok(pa) && pa.negotiated == local_capabilities.spec_intersect(
                hello.capabilities,
            ) && pa.transcript@ == transcript_of(
                hello@,
                (HelloV {
                    device_id: local_identity.device_id@,
                    display_name: local_identity.display_name@,
                    capabilities: local_capabilities,
                    ephemeral_public: local_ephemeral_public@,
                }),
                challenge@,
            ) && pa.peer_identity == hello.identity
        }),
        r is Ok <==> (event matches HandshakeEvent::Received(hello)
            && !local_capabilities.spec_intersect(hello.capabilities).spec_is_empty()),
{
    match event {
        HandshakeEvent::TimedOut => Result::Err(HandshakeError::Timeout),
        HandshakeEvent::Malformed => Result::Err(HandshakeError::ProtocolViolation),
        HandshakeEvent::Received(hello) => {
            let negotiated = local_capabilities.intersect(&hello.capabilities);
            if negotiated.is_empty() {
                Result::Err(HandshakeError::IncompatibleCapabilities)
            } else {
                let transcript = build_transcript(
                    &hello.identity,
                    &hello.capabilities,
                    &hello.ephemeral_public,
                    local_identity,
                    &local_capabilities,
                    local_ephemeral_public,
                    challenge,
                );
                Result::Ok(
                    PendingAuth { peer_identity: hello.identity, negotiated, transcript },
                )
            }
        },
    }
}

impl PendingAuth {
    /// The bytes each side signs with its long-term credential.
    pub fn transcript(&self) -> (r: &Vec<u8>)
        ensures
            r@ == self.transcript@,
    {
        &self.transcript
    }

    /// Finish authentication. `peer_auth` carries the outcome of
    /// verifying the peer's signature over the transcript against its
    /// long-term public key. Only a verified signature establishes the
    /// session; a failed one ends the handshake with
    /// AuthenticationFailed, and no session is ever produced from it.
    pub fn complete(self, shared_secret: Vec<u8>, peer_auth: HandshakeEvent<bool>) -> (r: Result<
        AlnpSession,
        HandshakeError,
    >)
        ensures
            peer_auth is TimedOut ==> r == Result::<AlnpSession, HandshakeError>::Err(
                HandshakeError::Timeout,
            ),
            peer_auth is Malformed ==> r == Result::<AlnpSession, HandshakeError>::Err(
                HandshakeError::ProtocolViolation,
            ),
            peer_auth == HandshakeEvent::Received(false) ==> r == Result::<
                AlnpSession,
                HandshakeError,
            >::Err(HandshakeError::AuthenticationFailed),
            r is Ok <==> peer_auth == HandshakeEvent::Received(true),
            r matches Result::Ok(s) ==> (s.state matches SessionState::Established(v)
                && v.keys.material@ == keys_of(shared_secret@, self.transcript@)
                && v.peer_identity == self.peer_identity && v.negotiated == self.negotiated),
    {
        match peer_auth {
            HandshakeEvent::TimedOut => Result::Err(HandshakeError::Timeout),
            HandshakeEvent::Malformed => Result::Err(HandshakeError::ProtocolViolation),
            HandshakeEvent::Received(verified) => {
                if !verified {
                    Result::Err(HandshakeError::AuthenticationFailed)
                } else {
                    let keys = derive_session_keys(&shared_secret, &self.transcript);
                    let session_id = fresh_uuid();
                    Result::Ok(
                        AlnpSession {
                            state: SessionState::Established(
                                EstablishedView {
                                    peer_identity: self.peer_identity,
                                    negotiated: self.negotiated,
                                    keys,
                                    session_id,
                                },
                            ),
                        },
                    )
                }
            },
        }
    }
}

/// Symmetric key agreement: an initiator and a responder that saw the
/// same ephemeral public keys and challenge, and agreed on the same
/// shared secret, derive identical session key material.
pub proof fn lemma_key_agreement(
    initiator: HelloV,
    responder: HelloV,
    challenge: Seq<u8>,
    shared: Seq<u8>,
    initiator_keys: Seq<u8>,
    responder_keys: Seq<u8>,
)
    requires
        initiator_keys == keys_of(shared, transcript_of(initiator, responder, challenge)),
        responder_keys == keys_of(shared, transcript_of(initiator, responder, challenge)),
    ensures
        initiator_keys == responder_keys,
{
}

/// Distinct challenges give distinct keys: two handshakes whose
/// challenges differ derive different key material, even where every
/// other input repeats.
pub proof fn lemma_fresh_challenge_fresh_keys(
    initiator: HelloV,
    responder: HelloV,
    challenge1: Seq<u8>,
    challenge2: Seq<u8>,
    shared: Seq<u8>,
)
    requires
        challenge1.len() == challenge2.len(),
        challenge1 != challenge2,
    ensures
        keys_of(shared, transcript_of(initiator, responder, challenge1)) != keys_of(
            shared,
            transcript_of(initiator, responder, challenge2),
        ),
{
    let k1 = keys_of(shared, transcript_of(initiator, responder, challenge1));
    let k2 = keys_of(shared, transcript_of(initiator, responder, challenge2));
    if k1 == k2 {
        let off = shared.len() + hello_bytes(initiator).len() + hello_bytes(responder).len();
        assert(challenge1 =~= challenge2) by {
            assert forall|m: int| 0 <= m < challenge1.len() implies challenge1[m] == challenge2[m]
            by {
                assert(k1[off + m] == challenge1[m]);
                assert(k2[off + m] == challenge2[m]);
            }
        }
        assert(false);
    }
}

} // verus!
