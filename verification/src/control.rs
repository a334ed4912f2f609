//! The control plane: sequenced, authenticated command envelopes built
//! under session-derived keys, and the symmetric acceptance check a peer
//! runs (recompute the tag, then refuse stale sequence numbers).

use vstd::prelude::*;

use crate::codec::check_value;
use crate::codec::enc_u64;
use crate::codec::enc_value;
use crate::codec::push_u64;
use crate::codec::push_value;
use crate::codec::value_valid;
use crate::errors::HandshakeError;
use crate::messages::ControlOp;
use crate::messages::JsonValue;
use crate::messages::ValueV;
use crate::session::SessionKeys;

verus! {

/// A sequenced control-plane message, authenticated under the session
/// keys and ready for transport. Sequence numbers are caller-supplied;
/// the channel binds them, and the peer refuses any that do not increase.
#[derive(Debug)]
pub struct ControlEnvelope {
    pub sequence: u64,
    pub op: ControlOp,
    pub payload: JsonValue,
    pub tag: u64,
}

pub open spec fn op_tag(op: ControlOp) -> u8 {
    match op {
        ControlOp::Query => 0,
        ControlOp::Command => 1,
        ControlOp::Notify => 2,
        ControlOp::Ack => 3,
    }
}

fn op_tag_ex(op: ControlOp) -> (r: u8)
    ensures
        r == op_tag(op),
{
    match op {
        ControlOp::Query => 0,
        ControlOp::Command => 1,
        ControlOp::Notify => 2,
        ControlOp::Ack => 3,
    }
}

/// The bytes the authentication tag covers: session id, sequence, verb,
/// and the serialized payload.
pub open spec fn control_bytes(
    session_id: u128,
    sequence: u64,
    op: ControlOp,
    payload: ValueV,
) -> Seq<u8> {
    enc_u64((session_id & 0xFFFF_FFFF_FFFF_FFFF) as u64) + enc_u64((session_id >> 64) as u64)
        + enc_u64(sequence) + seq![op_tag(op)] + enc_value(payload)
}

pub open spec fn tag_fold(acc: u64, b: u8) -> u64 {
    (((acc * 131) + b) % 0x1_0000_0000_0000_0000) as u64
}

pub open spec fn tag_scan(acc: u64, s: Seq<u8>) -> u64
    decreases s.len(),
{
    if s.len() == 0 {
        acc
    } else {
        tag_scan(tag_fold(acc, s[0]), s.skip(1))
    }
}

/// The authentication tag: a keyed fold over the key material and the
/// covered bytes. It is a model of the authentication primitive, not a
/// cryptographic MAC; a deployment substitutes its own through the same
/// recompute-and-compare check.
pub open spec fn tag_of(key: Seq<u8>, msg: Seq<u8>) -> u64 {
    tag_scan(tag_scan(17, key), msg)
}

fn tag_feed(acc: u64, s: &Vec<u8>) -> (r: u64)
    ensures
        r == tag_scan(acc, s@),
{
    let mut a: u64 = acc;
    let mut k: usize = 0;
    assert(s@.skip(0) =~= s@);
    while k < s.len()
        invariant
            k <= s@.len(),
            tag_scan(a, s@.skip(k as int)) == tag_scan(acc, s@),
        decreases s@.len() - k,
    {
        let b = s[k];
        let wide: u128 = (a as u128) * 131 + (b as u128);
        let next: u64 = (wide % 0x1_0000_0000_0000_0000u128) as u64;
        proof {
            assert(next == tag_fold(a, b));
            assert(s@.skip(k as int)[0] == s@[k as int]);
            assert(s@.skip(k as int).skip(1) =~= s@.skip(k as int + 1));
        }
        a = next;
        k = k + 1;
    }
    assert(s@.skip(s@.len() as int) =~= Seq::<u8>::empty());
    a
}

/// Compute the tag over key material and covered bytes.
pub fn compute_tag(key: &Vec<u8>, msg: &Vec<u8>) -> (r: u64)
    ensures
        r == tag_of(key@, msg@),
{
    let after_key = tag_feed(17, key);
    tag_feed(after_key, msg)
}

fn build_control_bytes(session_id: u128, sequence: u64, op: ControlOp, payload: &JsonValue) -> (r:
    Vec<u8>)
    requires
        value_valid(payload@),
    ensures
        r@ == control_bytes(session_id, sequence, op, payload@),
{
    let mut out: Vec<u8> = Vec::new();
    push_u64(&mut out, (session_id & 0xFFFF_FFFF_FFFF_FFFF) as u64);
    push_u64(&mut out, (session_id >> 64) as u64);
    push_u64(&mut out, sequence);
    out.push(op_tag_ex(op));
    push_value(&mut out, payload);
    assert(out@ =~= control_bytes(session_id, sequence, op, payload@));
    out
}

/// Whether a peer accepts an envelope: the payload is encodable, the tag
/// matches under the shared keys, and the sequence exceeds the last
/// accepted one.
pub open spec fn envelope_accepted(
    key: Seq<u8>,
    session_id: u128,
    last_sequence: u64,
    sequence: u64,
    op: ControlOp,
    payload: ValueV,
    tag: u64,
) -> bool {
    &&& value_valid(payload)
    &&& tag == tag_of(key, control_bytes(session_id, sequence, op, payload))
    &&& sequence > last_sequence
}

/// The sending half of the control channel, bound to one established
/// session.
pub struct ControlClient {
    pub device_uuid: u128,
    pub session_id: u128,
    pub keys: Option<SessionKeys>,
}

impl ControlClient {
    pub fn new(device_uuid: u128, session_id: u128, keys: Option<SessionKeys>) -> (r: ControlClient)
        ensures
            r.device_uuid == device_uuid,
            r.session_id == session_id,
            r.keys == keys,
    {
        ControlClient { device_uuid, session_id, keys }
    }

    /// Build an authenticated envelope. Fails with KeysMissing where the
    /// channel was built without session keys (a session that never
    /// reached Established), and with ProtocolViolation where the payload
    /// does not fit the wire format's limits.
    pub fn envelope(&self, sequence: u64, op: ControlOp, payload: JsonValue) -> (r: Result<
        ControlEnvelope,
        HandshakeError,
    >)
        ensures
            self.keys is None ==> r == Result::<ControlEnvelope, HandshakeError>::Err(
                HandshakeError::KeysMissing,
            ),
            self.keys matches Option::Some(k) ==> (if !value_valid(payload@) {
                r == Result::<ControlEnvelope, HandshakeError>::Err(
                    HandshakeError::ProtocolViolation,
                )
            } else {
                r matches Result::Ok(env) && env.sequence == sequence && env.op == op
                    && env.payload@ == payload@ && env.tag == tag_of(
                    k.material@,
                    control_bytes(self.session_id, sequence, op, payload@),
                )
            }),
            r is Ok <==> (self.keys is Some && value_valid(payload@)),
    {
        match &self.keys {
            Option::None => Result::Err(HandshakeError::KeysMissing),
            Option::Some(k) => {
                if !check_value(&payload) {
                    Result::Err(HandshakeError::ProtocolViolation)
                } else {
                    let bytes = build_control_bytes(self.session_id, sequence, op, &payload);
                    let tag = compute_tag(&k.material, &bytes);
                    Result::Ok(ControlEnvelope { sequence, op, payload, tag })
                }
            },
        }
    }
}

/// The acceptance check a verifying peer runs against an incoming
/// envelope: recompute the tag under the shared keys, refuse a mismatch
/// as forged, then refuse a sequence that does not exceed the last
/// accepted one as stale.
pub fn verify_envelope(
    keys: &SessionKeys,
    session_id: u128,
    last_sequence: u64,
    env: &ControlEnvelope,
) -> (r: Result<(), HandshakeError>)
    ensures
        r is Ok <==> envelope_accepted(
            keys.material@,
            session_id,
            last_sequence,
            env.sequence,
            env.op,
            env.payload@,
            env.tag,
        ),
        !value_valid(env.payload@) ==> r == Result::<(), HandshakeError>::Err(
            HandshakeError::ProtocolViolation,
        ),
        (value_valid(env.payload@) && env.tag != tag_of(
            keys.material@,
            control_bytes(session_id, env.sequence, env.op, env.payload@),
        )) ==> r == Result::<(), HandshakeError>::Err(HandshakeError::AuthenticationFailed),
        (value_valid(env.payload@) && env.tag == tag_of(
            keys.material@,
            control_bytes(session_id, env.sequence, env.op, env.payload@),
        ) && env.sequence <= last_sequence) ==> r == Result::<(), HandshakeError>::Err(
            HandshakeError::StaleSequence,
        ),
{
    if !check_value(&env.payload) {
        return Result::Err(HandshakeError::ProtocolViolation);
    }
    let bytes = build_control_bytes(session_id, env.sequence, env.op, &env.payload);
    let expected = compute_tag(&keys.material, &bytes);
    if env.tag != expected {
        Result::Err(HandshakeError::AuthenticationFailed)
    } else if env.sequence <= last_sequence {
        Result::Err(HandshakeError::StaleSequence)
    } else {
        Result::Ok(())
    }
}

/// Replay rejection: once a peer has accepted an envelope and advanced
/// its last-accepted sequence to that envelope's, the same envelope is
/// not accepted a second time.
pub proof fn lemma_replay_rejected(
    key: Seq<u8>,
    session_id: u128,
    last_sequence: u64,
    sequence: u64,
    op: ControlOp,
    payload: ValueV,
    tag: u64,
)
    requires
        envelope_accepted(key, session_id, last_sequence, sequence, op, payload, tag),
    ensures
        !envelope_accepted(key, session_id, sequence, sequence, op, payload, tag),
{
}

} // verus!
