//! Actions that drive the Yamux session layer.

use vstd::prelude::*;

use crate::p2p_network::{P2pNetworkSchedulerState, StreamKind};
use crate::yamux::frame::{
    StreamId, YamuxFlags, YamuxFrame, YamuxFrameInner, YamuxFrameInnerV, YamuxFrameV,
};
use crate::{ConnectionAddr, Data, Timestamp};

verus! {

/// A session-level ping: the tag to echo and whether this is the reply.
#[derive(Clone, Copy, Debug, PartialEq, Eq, Structural)]
pub struct YamuxPing {
    pub stream_id: StreamId,
    pub opaque: i32,
    pub response: bool,
}

impl YamuxPing {
    /// The Ping frame this ping travels as; a reply carries ACK.
    pub fn into_frame(self) -> (r: YamuxFrame)
        ensures
            r@.stream_id == self.stream_id,
            r@.inner == (YamuxFrameInnerV::Ping { opaque: self.opaque }),
            r@.flags == (YamuxFlags {
                syn: false,
                ack: self.response,
                fin: false,
                rst: false,
            }),
    {
        YamuxFrame {
            flags: YamuxFlags { syn: false, ack: self.response, fin: false, rst: false },
            stream_id: self.stream_id,
            inner: YamuxFrameInner::Ping { opaque: self.opaque },
        }
    }
}

/// Everything the Yamux session layer can be asked to do.
#[derive(Debug)]
pub enum P2pNetworkYamuxAction {
    /// Decrypted bytes arrived from the transport.
    IncomingData { addr: ConnectionAddr, data: Data },
    /// The application wants payload sent on a stream.
    OutgoingData { addr: ConnectionAddr, stream_id: StreamId, data: Data, flags: YamuxFlags },
    /// One parsed frame is ready to be handled.
    IncomingFrame { addr: ConnectionAddr, frame: YamuxFrame },
    /// One frame is ready for window accounting and serialization.
    OutgoingFrame { addr: ConnectionAddr, frame: YamuxFrame },
    /// Send a session-level ping or pong.
    PingStream { addr: ConnectionAddr, ping: YamuxPing },
    /// Open a local stream for a protocol.
    OpenStream { addr: ConnectionAddr, stream_id: StreamId, stream_kind: StreamKind },
}

/// Mathematical model of a session action.
#[verifier::ext_equal]
pub enum P2pNetworkYamuxActionV {
    IncomingData { addr: ConnectionAddr, data: Seq<u8> },
    OutgoingData { addr: ConnectionAddr, stream_id: StreamId, data: Seq<u8>, flags: YamuxFlags },
    IncomingFrame { addr: ConnectionAddr, frame: YamuxFrameV },
    OutgoingFrame { addr: ConnectionAddr, frame: YamuxFrameV },
    PingStream { addr: ConnectionAddr, ping: YamuxPing },
    OpenStream { addr: ConnectionAddr, stream_id: StreamId, stream_kind: StreamKind },
}

impl View for P2pNetworkYamuxAction {
    type V = P2pNetworkYamuxActionV;

    open spec fn view(&self) -> P2pNetworkYamuxActionV {
        match self {
            P2pNetworkYamuxAction::IncomingData { addr, data } => {
                P2pNetworkYamuxActionV::IncomingData { addr: *addr, data: data@ }
            },
            P2pNetworkYamuxAction::OutgoingData { addr, stream_id, data, flags } => {
                P2pNetworkYamuxActionV::OutgoingData {
                    addr: *addr,
                    stream_id: *stream_id,
                    data: data@,
                    flags: *flags,
                }
            },
            P2pNetworkYamuxAction::IncomingFrame { addr, frame } => {
                P2pNetworkYamuxActionV::IncomingFrame { addr: *addr, frame: frame@ }
            },
            P2pNetworkYamuxAction::OutgoingFrame { addr, frame } => {
                P2pNetworkYamuxActionV::OutgoingFrame { addr: *addr, frame: frame@ }
            },
            P2pNetworkYamuxAction::PingStream { addr, ping } => {
                P2pNetworkYamuxActionV::PingStream { addr: *addr, ping: *ping }
            },
            P2pNetworkYamuxAction::OpenStream { addr, stream_id, stream_kind } => {
                P2pNetworkYamuxActionV::OpenStream {
                    addr: *addr,
                    stream_id: *stream_id,
                    stream_kind: *stream_kind,
                }
            },
        }
    }
}

impl P2pNetworkYamuxAction {
    /// The connection the action addresses.
    pub open spec fn spec_addr(&self) -> ConnectionAddr {
        match self {
            P2pNetworkYamuxAction::IncomingData { addr, .. } => *addr,
            P2pNetworkYamuxAction::OutgoingData { addr, .. } => *addr,
            P2pNetworkYamuxAction::IncomingFrame { addr, .. } => *addr,
            P2pNetworkYamuxAction::OutgoingFrame { addr, .. } => *addr,
            P2pNetworkYamuxAction::PingStream { addr, .. } => *addr,
            P2pNetworkYamuxAction::OpenStream { addr, .. } => *addr,
        }
    }

    /// The connection the action addresses.
    pub fn addr(&self) -> (r: &ConnectionAddr)
        ensures
            *r == self.spec_addr(),
    {
        match self {
            P2pNetworkYamuxAction::IncomingData { addr, .. } => addr,
            P2pNetworkYamuxAction::OutgoingData { addr, .. } => addr,
            P2pNetworkYamuxAction::IncomingFrame { addr, .. } => addr,
            P2pNetworkYamuxAction::OutgoingFrame { addr, .. } => addr,
            P2pNetworkYamuxAction::PingStream { addr, .. } => addr,
            P2pNetworkYamuxAction::OpenStream { addr, .. } => addr,
        }
    }

    /// Enabling condition of a session action. Session actions are gated by
    /// the reducer itself (missing connection, missing mux, terminated
    /// session), not by the state snapshot, so every variant is enabled.
    pub fn is_enabled(&self, _state: &P2pNetworkSchedulerState, _time: Timestamp) -> (r: bool)
        ensures
            r == true,
    {
        match self {
            P2pNetworkYamuxAction::IncomingData { .. } => true,
            P2pNetworkYamuxAction::OutgoingData { .. } => true,
            P2pNetworkYamuxAction::IncomingFrame { .. } => true,
            P2pNetworkYamuxAction::OutgoingFrame { .. } => true,
            P2pNetworkYamuxAction::PingStream { .. } => true,
            P2pNetworkYamuxAction::OpenStream { .. } => true,
        }
    }
}

} // verus!
