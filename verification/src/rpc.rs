//! Local RPC requests against the node (state queries, connection
//! control), tracked by id with a strict status lifecycle.

use std::collections::BTreeMap;
use vstd::prelude::*;

use crate::webrtc::Answer;
use crate::{PeerId, RpcId, Timestamp};

verus! {

broadcast use vstd::std_specs::btree::group_btree_axioms, vstd::laws_cmp::group_laws_cmp;

/// Which action statistics a caller asks for.
#[derive(Clone, Copy, Debug, PartialEq, Eq, Structural)]
pub enum ActionStatsQuery {
    SinceStart,
}

/// Accumulated statistics for one kind of action.
#[derive(Clone, Copy, Debug, PartialEq, Eq, Structural)]
pub struct ActionStatsForRanges {
    pub total_calls: u64,
    pub total_duration: u64,
}

/// The statistics answer, per action kind.
#[derive(Clone, Debug, PartialEq)]
pub enum ActionStatsResponse {
    SinceStart(Vec<(u64, ActionStatsForRanges)>),
}

/// What an outgoing connection attempt needs to dial.
#[derive(Clone, Copy, Debug, PartialEq, Eq, Structural)]
pub struct P2pConnectionOutgoingInitOpts {
    pub peer_id: PeerId,
    pub address: u64,
}

/// What an incoming connection attempt arrived with.
#[derive(Clone, Copy, Debug, PartialEq, Eq, Structural)]
pub struct P2pConnectionIncomingInitOpts {
    pub peer_id: PeerId,
    pub offer: crate::webrtc::Offer,
}

/// Lifecycle of one tracked RPC request.
#[derive(Clone, Copy, Debug, PartialEq, Eq, Structural)]
pub enum RpcRequestStatus {
    Init { time: Timestamp },
    Pending { time: Timestamp },
    Error { time: Timestamp },
    Success { time: Timestamp },
}

impl RpcRequestStatus {
    pub open spec fn spec_is_init(&self) -> bool {
        self is Init
    }

    pub open spec fn spec_is_pending(&self) -> bool {
        self is Pending
    }

    pub open spec fn spec_is_finished(&self) -> bool {
        self is Error || self is Success
    }

    pub fn is_init(&self) -> (r: bool)
        ensures
            r == self.spec_is_init(),
    {
        matches!(self, RpcRequestStatus::Init { .. })
    }

    pub fn is_pending(&self) -> (r: bool)
        ensures
            r == self.spec_is_pending(),
    {
        matches!(self, RpcRequestStatus::Pending { .. })
    }

    pub fn is_finished(&self) -> (r: bool)
        ensures
            r == self.spec_is_finished(),
    {
        matches!(self, RpcRequestStatus::Error { .. } | RpcRequestStatus::Success { .. })
    }
}

/// One tracked request.
#[derive(Clone, Copy, Debug, PartialEq, Eq, Structural)]
pub struct RpcRequestState {
    pub status: RpcRequestStatus,
}

/// The request table after one enabled RPC action.
pub open spec fn spec_rpc_apply(
    m: Map<RpcId, RpcRequestState>,
    a: RpcAction,
    time: Timestamp,
) -> Map<RpcId, RpcRequestState> {
    match a {
        RpcAction::GlobalStateGet(_) => m,
        RpcAction::ActionStatsGet(_) => m,
        RpcAction::P2pConnectionOutgoingInit(v) => m.insert(
            v.rpc_id,
            RpcRequestState { status: RpcRequestStatus::Init { time } },
        ),
        RpcAction::P2pConnectionOutgoingPending(v) => m.insert(
            v.rpc_id,
            RpcRequestState { status: RpcRequestStatus::Pending { time } },
        ),
        RpcAction::P2pConnectionOutgoingError(v) => m.insert(
            v.rpc_id,
            RpcRequestState { status: RpcRequestStatus::Error { time } },
        ),
        RpcAction::P2pConnectionOutgoingSuccess(v) => m.insert(
            v.rpc_id,
            RpcRequestState { status: RpcRequestStatus::Success { time } },
        ),
        RpcAction::P2pConnectionIncomingInit(v) => m.insert(
            v.rpc_id,
            RpcRequestState { status: RpcRequestStatus::Init { time } },
        ),
        RpcAction::P2pConnectionIncomingPending(v) => m.insert(
            v.rpc_id,
            RpcRequestState { status: RpcRequestStatus::Pending { time } },
        ),
        RpcAction::P2pConnectionIncomingAnswerSet(_) => m,
        RpcAction::P2pConnectionIncomingError(v) => m.insert(
            v.rpc_id,
            RpcRequestState { status: RpcRequestStatus::Error { time } },
        ),
        RpcAction::P2pConnectionIncomingSuccess(v) => m.insert(
            v.rpc_id,
            RpcRequestState { status: RpcRequestStatus::Success { time } },
        ),
        RpcAction::Finish(v) => m.remove(v.rpc_id),
    }
}

/// All tracked requests, by id.
#[derive(Debug)]
pub struct RpcState {
    pub requests: BTreeMap<RpcId, RpcRequestState>,
}

impl RpcState {
    pub fn new() -> (r: RpcState)
        ensures
            r.requests@ == Map::<RpcId, RpcRequestState>::empty(),
    {
        RpcState { requests: BTreeMap::new() }
    }

    /// The status of a tracked request.
    pub open spec fn spec_status_of(&self, rpc_id: RpcId) -> Option<RpcRequestStatus> {
        if self.requests@.contains_key(rpc_id) {
            Some(self.requests@[rpc_id].status)
        } else {
            None
        }
    }
}

// ---------------------------------------------------------------------------
// Actions
// ---------------------------------------------------------------------------
/// Asks for a snapshot of the whole state.
#[derive(Clone, Copy, Debug, PartialEq, Eq, Structural)]
pub struct RpcGlobalStateGetAction {
    pub rpc_id: RpcId,
}

/// Asks for action statistics.
#[derive(Clone, Copy, Debug, PartialEq, Eq, Structural)]
pub struct RpcActionStatsGetAction {
    pub rpc_id: RpcId,
    pub query: ActionStatsQuery,
}

/// Starts an outgoing connection on a caller's behalf.
#[derive(Clone, Copy, Debug, PartialEq, Eq, Structural)]
pub struct RpcP2pConnectionOutgoingInitAction {
    pub rpc_id: RpcId,
    pub opts: P2pConnectionOutgoingInitOpts,
}

/// Marks a tracked outgoing connection as dialing.
#[derive(Clone, Copy, Debug, PartialEq, Eq, Structural)]
pub struct RpcP2pConnectionOutgoingPendingAction {
    pub rpc_id: RpcId,
}

/// Fails a tracked outgoing connection.
#[derive(Clone, Debug, PartialEq)]
pub struct RpcP2pConnectionOutgoingErrorAction {
    pub rpc_id: RpcId,
    pub error: String,
}

/// Completes a tracked outgoing connection.
#[derive(Clone, Copy, Debug, PartialEq, Eq, Structural)]
pub struct RpcP2pConnectionOutgoingSuccessAction {
    pub rpc_id: RpcId,
}

/// Accepts an incoming connection on a caller's behalf.
#[derive(Clone, Copy, Debug, PartialEq, Eq, Structural)]
pub struct RpcP2pConnectionIncomingInitAction {
    pub rpc_id: RpcId,
    pub opts: P2pConnectionIncomingInitOpts,
}

/// Marks a tracked incoming connection as answering.
#[derive(Clone, Copy, Debug, PartialEq, Eq, Structural)]
pub struct RpcP2pConnectionIncomingPendingAction {
    pub rpc_id: RpcId,
}

/// Records the answer produced for a tracked incoming connection.
#[derive(Clone, Copy, Debug, PartialEq, Eq, Structural)]
pub struct RpcP2pConnectionIncomingAnswerSetAction {
    pub rpc_id: RpcId,
    pub answer: Answer,
}

/// Fails a tracked incoming connection.
#[derive(Clone, Debug, PartialEq)]
pub struct RpcP2pConnectionIncomingErrorAction {
    pub rpc_id: RpcId,
    pub error: String,
}

/// Completes a tracked incoming connection.
#[derive(Clone, Copy, Debug, PartialEq, Eq, Structural)]
pub struct RpcP2pConnectionIncomingSuccessAction {
    pub rpc_id: RpcId,
}

/// Finishes and drops a tracked request.
#[derive(Clone, Copy, Debug, PartialEq, Eq, Structural)]
pub struct RpcFinishAction {
    pub rpc_id: RpcId,
}

/// Everything a local RPC caller can set in motion.
#[derive(Clone, Debug, PartialEq)]
pub enum RpcAction {
    GlobalStateGet(RpcGlobalStateGetAction),
    ActionStatsGet(RpcActionStatsGetAction),
    P2pConnectionOutgoingInit(RpcP2pConnectionOutgoingInitAction),
    P2pConnectionOutgoingPending(RpcP2pConnectionOutgoingPendingAction),
    P2pConnectionOutgoingError(RpcP2pConnectionOutgoingErrorAction),
    P2pConnectionOutgoingSuccess(RpcP2pConnectionOutgoingSuccessAction),
    P2pConnectionIncomingInit(RpcP2pConnectionIncomingInitAction),
    P2pConnectionIncomingPending(RpcP2pConnectionIncomingPendingAction),
    P2pConnectionIncomingAnswerSet(RpcP2pConnectionIncomingAnswerSetAction),
    P2pConnectionIncomingError(RpcP2pConnectionIncomingErrorAction),
    P2pConnectionIncomingSuccess(RpcP2pConnectionIncomingSuccessAction),
    Finish(RpcFinishAction),
}

impl RpcAction {
    /// The tracked request the action concerns.
    pub open spec fn spec_rpc_id(&self) -> RpcId {
        match self {
            RpcAction::GlobalStateGet(a) => a.rpc_id,
            RpcAction::ActionStatsGet(a) => a.rpc_id,
            RpcAction::P2pConnectionOutgoingInit(a) => a.rpc_id,
            RpcAction::P2pConnectionOutgoingPending(a) => a.rpc_id,
            RpcAction::P2pConnectionOutgoingError(a) => a.rpc_id,
            RpcAction::P2pConnectionOutgoingSuccess(a) => a.rpc_id,
            RpcAction::P2pConnectionIncomingInit(a) => a.rpc_id,
            RpcAction::P2pConnectionIncomingPending(a) => a.rpc_id,
            RpcAction::P2pConnectionIncomingAnswerSet(a) => a.rpc_id,
            RpcAction::P2pConnectionIncomingError(a) => a.rpc_id,
            RpcAction::P2pConnectionIncomingSuccess(a) => a.rpc_id,
            RpcAction::Finish(a) => a.rpc_id,
        }
    }
}

/// Enabling condition of an RPC action over the request table: an init is
/// accepted only for a fresh id, progress steps only in the right status,
/// and the final cleanup only once finished. Stats and state queries are
/// always enabled.
pub open spec fn spec_rpc_enabled(rpc: RpcState, a: RpcAction) -> bool {
    match a {
        RpcAction::GlobalStateGet(_) => true,
        RpcAction::ActionStatsGet(_) => true,
        RpcAction::P2pConnectionOutgoingInit(v) => !rpc.requests@.contains_key(v.rpc_id),
        RpcAction::P2pConnectionOutgoingPending(v) => rpc.spec_status_of(v.rpc_id) matches Some(st)
            && st.spec_is_init(),
        RpcAction::P2pConnectionOutgoingError(v) => rpc.spec_status_of(v.rpc_id) matches Some(st)
            && st.spec_is_pending(),
        RpcAction::P2pConnectionOutgoingSuccess(v) => rpc.spec_status_of(v.rpc_id) matches Some(st)
            && st.spec_is_pending(),
        RpcAction::P2pConnectionIncomingInit(v) => !rpc.requests@.contains_key(v.rpc_id),
        RpcAction::P2pConnectionIncomingPending(v) => rpc.spec_status_of(v.rpc_id) matches Some(st)
            && st.spec_is_init(),
        RpcAction::P2pConnectionIncomingAnswerSet(v) => rpc.spec_status_of(v.rpc_id) matches Some(
            st,
        ) && st.spec_is_pending(),
        RpcAction::P2pConnectionIncomingError(v) => rpc.spec_status_of(v.rpc_id) matches Some(st)
            && st.spec_is_pending(),
        RpcAction::P2pConnectionIncomingSuccess(v) => rpc.spec_status_of(v.rpc_id) matches Some(st)
            && st.spec_is_pending(),
        RpcAction::Finish(v) => rpc.spec_status_of(v.rpc_id) matches Some(st)
            && st.spec_is_finished(),
    }
}

impl RpcState {
    /// Whether an action's enabling condition holds on this table.
    pub fn check_enabled(&self, a: &RpcAction) -> (r: bool)
        ensures
            r == spec_rpc_enabled(*self, *a),
    {
        match a {
            RpcAction::GlobalStateGet(_) => true,
            RpcAction::ActionStatsGet(_) => true,
            RpcAction::P2pConnectionOutgoingInit(v) => !self.requests.contains_key(&v.rpc_id),
            RpcAction::P2pConnectionOutgoingPending(v) => match self.requests.get(&v.rpc_id) {
                Some(st) => st.status.is_init(),
                None => false,
            },
            RpcAction::P2pConnectionOutgoingError(v) => match self.requests.get(&v.rpc_id) {
                Some(st) => st.status.is_pending(),
                None => false,
            },
            RpcAction::P2pConnectionOutgoingSuccess(v) => match self.requests.get(&v.rpc_id) {
                Some(st) => st.status.is_pending(),
                None => false,
            },
            RpcAction::P2pConnectionIncomingInit(v) => !self.requests.contains_key(&v.rpc_id),
            RpcAction::P2pConnectionIncomingPending(v) => match self.requests.get(&v.rpc_id) {
                Some(st) => st.status.is_init(),
                None => false,
            },
            RpcAction::P2pConnectionIncomingAnswerSet(v) => match self.requests.get(&v.rpc_id) {
                Some(st) => st.status.is_pending(),
                None => false,
            },
            RpcAction::P2pConnectionIncomingError(v) => match self.requests.get(&v.rpc_id) {
                Some(st) => st.status.is_pending(),
                None => false,
            },
            RpcAction::P2pConnectionIncomingSuccess(v) => match self.requests.get(&v.rpc_id) {
                Some(st) => st.status.is_pending(),
                None => false,
            },
            RpcAction::Finish(v) => match self.requests.get(&v.rpc_id) {
                Some(st) => st.status.is_finished(),
                None => false,
            },
        }
    }

    /// Applies one RPC action to the request table: inits create the
    /// tracked request, progress steps rewrite its status, the cleanup
    /// removes it, and queries leave the table alone. Disabled actions are
    /// silent no-ops.
    pub fn reducer(&mut self, a: &RpcAction, time: Timestamp)
        ensures
            !spec_rpc_enabled(*old(self), *a) ==> final(self).requests@ == old(self).requests@,
            spec_rpc_enabled(*old(self), *a) ==> final(self).requests@ == spec_rpc_apply(
                old(self).requests@,
                *a,
                time,
            ),
    {
        if !self.check_enabled(a) {
            return ;
        }
        match a {
            RpcAction::GlobalStateGet(_) => {},
            RpcAction::ActionStatsGet(_) => {},
            RpcAction::P2pConnectionOutgoingInit(v) => {
                self.requests.insert(
                    v.rpc_id,
                    RpcRequestState { status: RpcRequestStatus::Init { time } },
                );
            },
            RpcAction::P2pConnectionOutgoingPending(v) => {
                self.requests.insert(
                    v.rpc_id,
                    RpcRequestState { status: RpcRequestStatus::Pending { time } },
                );
            },
            RpcAction::P2pConnectionOutgoingError(v) => {
                self.requests.insert(
                    v.rpc_id,
                    RpcRequestState { status: RpcRequestStatus::Error { time } },
                );
            },
            RpcAction::P2pConnectionOutgoingSuccess(v) => {
                self.requests.insert(
                    v.rpc_id,
                    RpcRequestState { status: RpcRequestStatus::Success { time } },
                );
            },
            RpcAction::P2pConnectionIncomingInit(v) => {
                self.requests.insert(
                    v.rpc_id,
                    RpcRequestState { status: RpcRequestStatus::Init { time } },
                );
            },
            RpcAction::P2pConnectionIncomingPending(v) => {
                self.requests.insert(
                    v.rpc_id,
                    RpcRequestState { status: RpcRequestStatus::Pending { time } },
                );
            },
            RpcAction::P2pConnectionIncomingAnswerSet(_) => {},
            RpcAction::P2pConnectionIncomingError(v) => {
                self.requests.insert(
                    v.rpc_id,
                    RpcRequestState { status: RpcRequestStatus::Error { time } },
                );
            },
            RpcAction::P2pConnectionIncomingSuccess(v) => {
                self.requests.insert(
                    v.rpc_id,
                    RpcRequestState { status: RpcRequestStatus::Success { time } },
                );
            },
            RpcAction::Finish(v) => {
                self.requests.remove(&v.rpc_id);
            },
        }
    }
}

} // verus!
