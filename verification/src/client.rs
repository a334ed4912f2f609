//! The client orchestrator: one established session, its data-plane
//! stream, its control channel, and its keepalive policy, behind the
//! connect / send / control / close surface.

use vstd::prelude::*;

use crate::control::control_bytes;
use crate::control::tag_of;
use crate::control::ControlClient;
use crate::control::ControlEnvelope;
use crate::codec::frame_valid;
use crate::codec::value_valid;
use crate::errors::ClientError;
use crate::errors::HandshakeError;
use crate::ids::fresh_uuid;
use crate::ids::parse_device_uuid;
use crate::ids::uuid_of;
use crate::keepalive::KeepaliveAction;
use crate::keepalive::KeepaliveEvent;
use crate::keepalive::KeepaliveState;
use crate::messages::ChannelFormat;
use crate::messages::ChannelGroup;
use crate::messages::ControlOp;
use crate::messages::Frame;
use crate::messages::JsonValue;
use crate::messages::MetadataEntry;
use crate::session::AlnpSession;
use crate::session::SessionState;
use crate::stream::AlnpStream;
use crate::stream::FrameTransport;

verus! {

/// The high-level client: owns the session, a stream over its own
/// dedicated transport, the control channel derived from the session
/// keys, and the keepalive state the background task follows.
pub struct AlpineClient<T: FrameTransport> {
    pub session: AlnpSession,
    pub stream: AlnpStream<T>,
    pub control: ControlClient,
    pub keepalive: KeepaliveState,
}

impl<T: FrameTransport> AlpineClient<T> {
    /// Assemble the client around a session the handshake produced, with
    /// the stream's own transport. A session that is not Established is
    /// refused. The device identifier is the peer's declared identity
    /// parsed as a UUID, falling back to a freshly generated one where it
    /// does not parse — a documented policy, not an error.
    pub fn connect(session: AlnpSession, transport: T) -> (r: Result<AlpineClient<T>, ClientError>)
        ensures
            r is Ok <==> session.state is Established,
            !(session.state is Established) ==> (r matches Result::Err(e) && e is Io),
            r matches Result::Ok(c) ==> (session.state matches SessionState::Established(v) ==> ({
                &&& c.session == session
                &&& c.control.session_id == v.session_id
                &&& (c.control.keys matches Option::Some(k) && k.material@ == v.keys.material@)
                &&& (uuid_of(v.peer_identity.device_id@) matches Option::Some(u)
                    ==> c.control.device_uuid == u)
                &&& c.keepalive.active
                &&& c.keepalive.session_id == v.session_id
                &&& c.stream.view.same_view(v)
                &&& c.stream.transport == transport
            })),
    {
        let view = match &session.state {
            SessionState::Established(v) => v.duplicate(),
            _ => {
                return Result::Err(ClientError::Io("session missing after handshake".to_owned()));
            },
        };
        let device_uuid = match parse_device_uuid(&view.peer_identity.device_id) {
            Option::Some(u) => u,
            Option::None => fresh_uuid(),
        };
        let keepalive = KeepaliveState::new(view.session_id);
        let control = ControlClient::new(device_uuid, view.session_id, Option::Some(view.keys.duplicate()));
        let stream = AlnpStream::new(view, transport);
        Result::Ok(AlpineClient { session, stream, control, keepalive })
    }

    /// Send one data-plane frame, best effort.
    pub fn send_frame(
        &self,
        channel_format: ChannelFormat,
        channels: Vec<u16>,
        priority: u8,
        groups: Option<Vec<ChannelGroup>>,
        metadata: Option<Vec<MetadataEntry>>,
    ) -> (r: Result<(), ClientError>)
        ensures
            !frame_valid((Frame { channel_format, channels, priority, groups, metadata })@) <==> (
            r matches Result::Err(e) && e matches ClientError::Stream(se) && se is FrameTooLarge),
            r matches Result::Err(e) ==> e is Stream,
            (r matches Result::Err(e) && e matches ClientError::Stream(se) && se is Transport)
                ==> frame_valid((Frame { channel_format, channels, priority, groups, metadata })@),
    {
        match self.stream.send(channel_format, channels, priority, groups, metadata) {
            Result::Ok(()) => Result::Ok(()),
            Result::Err(e) => Result::Err(ClientError::Stream(e)),
        }
    }

    /// Build an authenticated control envelope for the session; the
    /// caller dispatches it and keeps its sequence numbers strictly
    /// increasing.
    pub fn control_envelope(&self, sequence: u64, op: ControlOp, payload: JsonValue) -> (r: Result<
        ControlEnvelope,
        HandshakeError,
    >)
        ensures
            self.control.keys is None ==> r == Result::<ControlEnvelope, HandshakeError>::Err(
                HandshakeError::KeysMissing,
            ),
            self.control.keys matches Option::Some(k) ==> (if !value_valid(payload@) {
                r == Result::<ControlEnvelope, HandshakeError>::Err(
                    HandshakeError::ProtocolViolation,
                )
            } else {
                r matches Result::Ok(env) && env.sequence == sequence && env.op == op
                    && env.payload@ == payload@ && env.tag == tag_of(
                    k.material@,
                    control_bytes(self.control.session_id, sequence, op, payload@),
                )
            }),
            r is Ok <==> (self.control.keys is Some && value_valid(payload@)),
    {
        self.control.envelope(sequence, op, payload)
    }

    /// Close the client: the session ends Closed, every copy of the
    /// session keys is dropped — the control channel's (a closed client
    /// gets KeysMissing) and the stream snapshot's — and the keepalive
    /// task is told to stop. Closing twice is a no-op the second time;
    /// it never errs.
    pub fn close(&mut self)
        ensures
            final(self).session.state is Closed,
            !final(self).keepalive.active,
            final(self).keepalive.session_id == old(self).keepalive.session_id,
            final(self).control.keys is None,
            final(self).control.device_uuid == old(self).control.device_uuid,
            final(self).control.session_id == old(self).control.session_id,
            final(self).stream.view.keys.material@ == Seq::<u8>::empty(),
            final(self).stream.view.peer_identity.device_id@ == old(
                self,
            ).stream.view.peer_identity.device_id@,
            final(self).stream.view.negotiated == old(self).stream.view.negotiated,
            final(self).stream.view.session_id == old(self).stream.view.session_id,
            final(self).stream.transport == old(self).stream.transport,
    {
        self.session.close();
        self.control.keys = Option::None;
        self.stream.view.keys.material = Vec::new();
        let stop = self.keepalive.step(KeepaliveEvent::Cancelled);
        match stop {
            KeepaliveAction::Stop => (),
            _ => (),
        }
    }
}

} // verus!
