//! Keepalive policy: what the background liveness task does on each
//! event. The timer, the socket, and the task itself live outside; the
//! policy decides, and only cancellation stops it — a failed send does
//! not.

use vstd::prelude::*;

use crate::codec::enc_u64;
use crate::codec::push_u64;

verus! {

/// Marker byte opening every liveness frame.
pub const LIVENESS_TAG: u8 = 0x4B;

/// The liveness frame sent on each tick: a marker byte and the session
/// id.
pub open spec fn liveness_frame(session_id: u128) -> Seq<u8> {
    seq![LIVENESS_TAG] + enc_u64((session_id & 0xFFFF_FFFF_FFFF_FFFF) as u64) + enc_u64(
        (session_id >> 64) as u64,
    )
}

/// Build the liveness frame for a session.
pub fn build_liveness_frame(session_id: u128) -> (r: Vec<u8>)
    ensures
        r@ == liveness_frame(session_id),
{
    let mut out: Vec<u8> = Vec::new();
    out.push(LIVENESS_TAG);
    push_u64(&mut out, (session_id & 0xFFFF_FFFF_FFFF_FFFF) as u64);
    push_u64(&mut out, (session_id >> 64) as u64);
    assert(out@ =~= liveness_frame(session_id));
    out
}

/// What the task should do after an event.
pub enum KeepaliveAction {
    Send(Vec<u8>),
    Idle,
    Stop,
}

/// What reached the task: an interval tick, the failure of the last
/// send, or a cancellation request.
pub enum KeepaliveEvent {
    Tick,
    SendFailed,
    Cancelled,
}

/// The keepalive task's state: which session it speaks for, and whether
/// it is still running.
#[derive(Clone, Copy, Debug, PartialEq, Eq, Structural)]
pub struct KeepaliveState {
    pub session_id: u128,
    pub active: bool,
}

impl KeepaliveState {
    pub fn new(session_id: u128) -> (r: KeepaliveState)
        ensures
            r.session_id == session_id,
            r.active,
    {
        KeepaliveState { session_id, active: true }
    }

    /// One step of the policy: a tick sends the liveness frame; a failed
    /// send is ignored and the task stays alive; only cancellation stops
    /// it, and from then on every tick stops too.
    pub fn step(&mut self, event: KeepaliveEvent) -> (a: KeepaliveAction)
        ensures
            final(self).session_id == old(self).session_id,
            event is Cancelled ==> (!final(self).active && a is Stop),
            (event is Tick && old(self).active) ==> (a matches KeepaliveAction::Send(b) && b@
                == liveness_frame(old(self).session_id) && final(self).active),
            (event is Tick && !old(self).active) ==> (a is Stop && !final(self).active),
            event is SendFailed ==> (final(self).active == old(self).active && a is Idle),
    {
        match event {
            KeepaliveEvent::Cancelled => {
                self.active = false;
                KeepaliveAction::Stop
            },
            KeepaliveEvent::SendFailed => KeepaliveAction::Idle,
            KeepaliveEvent::Tick => {
                if self.active {
                    KeepaliveAction::Send(build_liveness_frame(self.session_id))
                } else {
                    KeepaliveAction::Stop
                }
            },
        }
    }
}

} // verus!
