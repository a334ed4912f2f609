//! ALNP: an authenticated, connection-oriented session protocol with a
//! sequenced control plane and a best-effort, channel-tagged data plane.
//!
//! The crate holds the protocol's logic: the handshake state machine, the
//! session lifecycle, control-envelope construction and acceptance, the
//! data-plane frame codec, and the keepalive policy. Socket and runtime
//! plumbing stays outside; the logic takes events and plain values and is
//! verified over them.

pub mod client;
pub mod codec;
pub mod control;
pub mod handshake;
pub mod ids;
pub mod keepalive;
pub mod errors;
pub mod messages;
pub mod session;
pub mod stream;
