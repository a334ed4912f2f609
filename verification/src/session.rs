//! Session lifecycle: a session is Connecting, Established, or Closed,
//! never goes back, and exposes its peer identity and keys only while
//! Established.

use vstd::prelude::*;

use crate::messages::CapabilitySet;
use crate::messages::DeviceIdentity;

verus! {

/// Symmetric key material derived from a handshake, owned by the session
/// and shared with the control plane.
pub struct SessionKeys {
    pub material: Vec<u8>,
}

pub(crate) fn copy_bytes(v: &Vec<u8>) -> (r: Vec<u8>)
    ensures
        r@ == v@,
{
    let mut out: Vec<u8> = Vec::new();
    let mut k: usize = 0;
    while k < v.len()
        invariant
            k <= v@.len(),
            out@ == v@.subrange(0, k as int),
        decreases v@.len() - k,
    {
        out.push(v[k]);
        proof {
            assert(out@ =~= v@.subrange(0, k as int + 1));
        }
        k = k + 1;
    }
    assert(v@.subrange(0, v@.len() as int) =~= v@);
    out
}

impl SessionKeys {
    /// A copy holding the same key material.
    pub fn duplicate(&self) -> (r: SessionKeys)
        ensures
            r.material@ == self.material@,
    {
        SessionKeys { material: copy_bytes(&self.material) }
    }
}

/// The read-only snapshot of an established session handed to the stream
/// and the control channel.
pub struct EstablishedView {
    pub peer_identity: DeviceIdentity,
    pub negotiated: CapabilitySet,
    pub keys: SessionKeys,
    pub session_id: u128,
}

impl EstablishedView {
    /// Whether two snapshots carry the same observable session data.
    pub open spec fn same_view(self, other: EstablishedView) -> bool {
        &&& self.peer_identity.device_id@ == other.peer_identity.device_id@
        &&& self.peer_identity.display_name@ == other.peer_identity.display_name@
        &&& self.negotiated == other.negotiated
        &&& self.keys.material@ == other.keys.material@
        &&& self.session_id == other.session_id
    }

    /// A snapshot sharing the same identity, capabilities, and keys.
    pub fn duplicate(&self) -> (r: EstablishedView)
        ensures
            r.same_view(*self),
    {
        EstablishedView {
            peer_identity: self.peer_identity.duplicate(),
            negotiated: self.negotiated,
            keys: self.keys.duplicate(),
            session_id: self.session_id,
        }
    }
}

/// Where a session stands in its lifecycle. There is no transition out of
/// Closed.
pub enum SessionState {
    Connecting,
    Established(EstablishedView),
    Closed,
}

/// The session state machine. Peer identity and keys are visible only
/// while the session is Established.
pub struct AlnpSession {
    pub state: SessionState,
}

impl AlnpSession {
    /// A session that has not completed its handshake.
    pub fn connecting() -> (r: AlnpSession)
        ensures
            r.state is Connecting,
    {
        AlnpSession { state: SessionState::Connecting }
    }

    /// The established view, while there is one: nothing is exposed
    /// before the handshake completes or after close.
    pub fn established(&self) -> (r: Option<&EstablishedView>)
        ensures
            match self.state {
                SessionState::Established(v) => r matches Option::Some(rv) && *rv == v,
                _ => r is None,
            },
    {
        match &self.state {
            SessionState::Established(v) => Option::Some(v),
            _ => Option::None,
        }
    }

    /// The session keys, under the same availability rule as
    /// `established`.
    pub fn keys(&self) -> (r: Option<&SessionKeys>)
        ensures
            match self.state {
                SessionState::Established(v) => r matches Option::Some(k) && *k == v.keys,
                _ => r is None,
            },
    {
        match &self.state {
            SessionState::Established(v) => Option::Some(&v.keys),
            _ => Option::None,
        }
    }

    /// Close the session. Closing is idempotent: the session ends Closed
    /// whatever it was, and closing a Closed session changes nothing.
    pub fn close(&mut self)
        ensures
            final(self).state is Closed,
            old(self).state is Closed ==> *final(self) == *old(self),
    {
        self.state = SessionState::Closed;
    }
}

} // verus!
