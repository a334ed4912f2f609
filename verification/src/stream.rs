//! The data plane: serialize channel-tagged frames and hand each one to a
//! datagram sink as a single write. Best effort by design: no
//! acknowledgement, retry, or fragmentation.

use vstd::prelude::*;

use crate::codec::encode_frame;
use crate::codec::frame_valid;
use crate::errors::StreamError;
use crate::messages::ChannelFormat;
use crate::messages::ChannelGroup;
use crate::messages::Frame;
use crate::messages::MetadataEntry;
use crate::session::EstablishedView;

verus! {

/// A datagram sink for the data plane: anything that can take one frame's
/// bytes as a single write. Implementations live outside the library (a
/// bound UDP socket, an in-memory recorder for tests); nothing is assumed
/// of what they do with the bytes.
pub trait FrameTransport {
    fn send_frame(&self, bytes: &[u8]) -> Result<(), String>;
}

/// The data-plane sender, built from an established session's snapshot
/// and its own dedicated transport, so data traffic never contends with
/// the control plane.
pub struct AlnpStream<T: FrameTransport> {
    pub view: EstablishedView,
    pub transport: T,
}

impl<T: FrameTransport> AlnpStream<T> {
    pub fn new(view: EstablishedView, transport: T) -> (r: AlnpStream<T>)
        ensures
            r.view == view,
            r.transport == transport,
    {
        AlnpStream { view, transport }
    }

    /// Serialize one frame and write it as one datagram. A frame beyond
    /// the wire format's limits is refused as too large; a transport
    /// refusal is surfaced as is. Nothing is promised about delivery:
    /// the sink, and the network under it, decide.
    pub fn send(
        &self,
        channel_format: ChannelFormat,
        channels: Vec<u16>,
        priority: u8,
        groups: Option<Vec<ChannelGroup>>,
        metadata: Option<Vec<MetadataEntry>>,
    ) -> (r: Result<(), StreamError>)
        ensures
            !frame_valid(
                (Frame { channel_format, channels, priority, groups, metadata })@,
            ) <==> (r matches Result::Err(e) && e is FrameTooLarge),
            (r matches Result::Err(e) && e is Transport) ==> frame_valid(
                (Frame { channel_format, channels, priority, groups, metadata })@,
            ),
    {
        let frame = Frame { channel_format, channels, priority, groups, metadata };
        match encode_frame(&frame) {
            Result::Err(e) => Result::Err(e),
            Result::Ok(bytes) => {
                match self.transport.send_frame(bytes.as_slice()) {
                    Result::Ok(()) => Result::Ok(()),
                    Result::Err(s) => Result::Err(StreamError::Transport(s)),
                }
            },
        }
    }
}

} // verus!
