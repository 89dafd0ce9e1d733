//! Connection lifecycle actions that outside events re-enter the state
//! machine as; the negotiation itself is an external collaborator.

use vstd::prelude::*;

use crate::webrtc::Answer;
use crate::PeerId;

verus! {

/// The offer for a dialed peer is ready.
#[derive(Clone, Copy, Debug, PartialEq, Eq, Structural)]
pub struct P2pConnectionOutgoingOfferSdpCreateSuccessAction {
    pub peer_id: PeerId,
    pub sdp: u64,
}

/// The answer for an accepting connection is ready.
#[derive(Clone, Copy, Debug, PartialEq, Eq, Structural)]
pub struct P2pConnectionIncomingAnswerSdpCreateSuccessAction {
    pub peer_id: PeerId,
    pub sdp: u64,
}

/// The dialed peer answered.
#[derive(Clone, Copy, Debug, PartialEq, Eq, Structural)]
pub struct P2pConnectionOutgoingAnswerRecvSuccessAction {
    pub peer_id: PeerId,
    pub answer: Answer,
}

/// An outgoing connection finished connecting.
#[derive(Clone, Copy, Debug, PartialEq, Eq, Structural)]
pub struct P2pConnectionOutgoingFinalizeSuccessAction {
    pub peer_id: PeerId,
}

/// An incoming connection finished connecting.
#[derive(Clone, Copy, Debug, PartialEq, Eq, Structural)]
pub struct P2pConnectionIncomingFinalizeSuccessAction {
    pub peer_id: PeerId,
}

/// A connection closed and its peer is gone.
#[derive(Clone, Copy, Debug, PartialEq, Eq, Structural)]
pub struct P2pDisconnectionFinishAction {
    pub peer_id: PeerId,
}

/// The connection-lifecycle actions the event source produces.
#[derive(Clone, Copy, Debug, PartialEq, Eq, Structural)]
pub enum P2pConnectionAction {
    OutgoingOfferSdpCreateSuccess(P2pConnectionOutgoingOfferSdpCreateSuccessAction),
    IncomingAnswerSdpCreateSuccess(P2pConnectionIncomingAnswerSdpCreateSuccessAction),
    OutgoingAnswerRecvSuccess(P2pConnectionOutgoingAnswerRecvSuccessAction),
    OutgoingFinalizeSuccess(P2pConnectionOutgoingFinalizeSuccessAction),
    IncomingFinalizeSuccess(P2pConnectionIncomingFinalizeSuccessAction),
    DisconnectionFinish(P2pDisconnectionFinishAction),
}

} // verus!
