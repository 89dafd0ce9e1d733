//! The one root state tree and the deterministic dispatcher: every state
//! change enters through `dispatch`, which accepts an action only where
//! its enabling condition holds on the current state, and applies the
//! matching reducer — actions whose condition fails are silent no-ops.

use vstd::prelude::*;

use crate::ledger::LedgerAction;
use crate::p2p::{P2pChannelsRpcRequestSendAction, P2pPeer, P2pState, spec_peer_of};
use crate::p2p_connection::P2pConnectionAction;
use crate::rpc::{spec_rpc_apply, spec_rpc_enabled, RpcAction, RpcState};
use crate::sync_ledger::{spec_enabled_local, TransitionFrontierSyncLedgerAction};
use crate::transition_frontier::{
    spec_tf_step, TransitionFrontierAction, TransitionFrontierState, TransitionFrontierSyncState,
};
use crate::{PeerId, Timestamp};

verus! {

/// Re-examines every timeout; produced on each tick.
#[derive(Clone, Copy, Debug, PartialEq, Eq, Structural)]
pub struct CheckTimeoutsAction {}

/// Every action the dispatcher accepts.
#[derive(Clone, Debug, PartialEq)]
pub enum Action {
    TransitionFrontier(TransitionFrontierAction),
    Rpc(RpcAction),
    P2pChannelsRpcRequestSend(P2pChannelsRpcRequestSendAction),
    Ledger(LedgerAction),
    P2pConnection(P2pConnectionAction),
    CheckTimeouts(CheckTimeoutsAction),
    /// Drop finished or stale work from the snark pool.
    ExternalSnarkWorkerPruneWork,
}

/// The root state tree: one per node, owned exclusively by the dispatcher
/// between actions.
#[derive(Debug)]
pub struct State {
    pub p2p: P2pState,
    pub transition_frontier: TransitionFrontierState,
    pub rpc: RpcState,
}

impl State {
    pub open spec fn wf(&self) -> bool {
        &&& self.p2p.wf()
        &&& self.transition_frontier.wf()
    }

    pub fn new() -> (r: State)
        ensures
            r.wf(),
            r.p2p.peers@.len() == 0,
            r.transition_frontier.sync == TransitionFrontierSyncState::Idle,
            r.rpc.requests@ == Map::<crate::RpcId, crate::rpc::RpcRequestState>::empty(),
    {
        State {
            p2p: P2pState::new(),
            transition_frontier: TransitionFrontierState::new(),
            rpc: RpcState::new(),
        }
    }

    /// The root-ledger sync state, while that stage runs.
    pub open spec fn spec_root_ledger(&self) -> Option<
        crate::sync_ledger::TransitionFrontierSyncLedgerState,
    > {
        self.transition_frontier.sync.spec_root_ledger()
    }
}

/// Enabling condition of a ledger-sync action over the whole state: the
/// root-ledger stage must be running and in the right shape, and the
/// query fan-out steps additionally need a ready peer whose RPC channel
/// can take a request.
pub open spec fn spec_sync_ledger_enabled(
    state: State,
    a: TransitionFrontierSyncLedgerAction,
) -> bool {
    match state.spec_root_ledger() {
        Some(rl) => spec_enabled_local(rl, a) && (match a {
            TransitionFrontierSyncLedgerAction::SnarkedLedgerSyncPeersQuery(_) => {
                state.p2p.spec_any_ready_can_send()
            },
            TransitionFrontierSyncLedgerAction::SnarkedLedgerSyncPeerQueryInit(v) => {
                state.p2p.spec_get_ready_peer(v.peer_id) matches Some(p) && p.rpc_can_send
            },
            _ => true,
        }),
        None => false,
    }
}

/// The enabling condition of every action: preconditions are the sole
/// source of ordering safety.
pub open spec fn spec_action_enabled(state: State, action: Action) -> bool {
    match action {
        Action::TransitionFrontier(a) => match a {
            TransitionFrontierAction::SyncInit(_) => true,
            TransitionFrontierAction::RootLedgerSyncPending(_) => state.transition_frontier.sync
                is Init,
            TransitionFrontierAction::SyncLedger(la) => spec_sync_ledger_enabled(state, la),
        },
        Action::Rpc(a) => spec_rpc_enabled(state.rpc, a),
        Action::P2pChannelsRpcRequestSend(v) => state.p2p.spec_get_ready_peer(
            v.peer_id,
        ) matches Some(p) && p.rpc_can_send,
        Action::Ledger(_) => true,
        Action::P2pConnection(_) => true,
        Action::CheckTimeouts(_) => true,
        Action::ExternalSnarkWorkerPruneWork => true,
    }
}

/// The busy successor of a peer that just sent a request: the channel is
/// taken and the next local RPC id is advanced.
pub open spec fn spec_peer_after_send(p: P2pPeer) -> P2pPeer {
    P2pPeer {
        ready: p.ready,
        rpc_can_send: false,
        next_local_rpc_id: if p.next_local_rpc_id == u64::MAX {
            0u64
        } else {
            (p.next_local_rpc_id + 1) as u64
        },
    }
}

/// Whether an action's enabling condition holds on the current state.
pub fn check_action_enabled(state: &State, action: &Action) -> (r: bool)
    requires
        state.wf(),
    ensures
        r == spec_action_enabled(*state, *action),
{
    match action {
        Action::TransitionFrontier(a) => match a {
            TransitionFrontierAction::SyncInit(_) => true,
            TransitionFrontierAction::RootLedgerSyncPending(_) => matches!(
                state.transition_frontier.sync,
                TransitionFrontierSyncState::Init { .. }
            ),
            TransitionFrontierAction::SyncLedger(la) => {
                match &state.transition_frontier.sync {
                    TransitionFrontierSyncState::RootLedgerSyncPending { root_ledger, .. } => {
                        if !root_ledger.check_enabled_local(la) {
                            false
                        } else {
                            match la {
                                TransitionFrontierSyncLedgerAction::SnarkedLedgerSyncPeersQuery(
                                    _,
                                ) => state.p2p.any_ready_peer_can_send(),
                                TransitionFrontierSyncLedgerAction::SnarkedLedgerSyncPeerQueryInit(
                                    v,
                                ) => match state.p2p.get_ready_peer(v.peer_id) {
                                    Some(p) => p.rpc_can_send,
                                    None => false,
                                },
                                _ => true,
                            }
                        }
                    },
                    _ => false,
                }
            },
        },
        Action::Rpc(a) => state.rpc.check_enabled(a),
        Action::P2pChannelsRpcRequestSend(v) => match state.p2p.get_ready_peer(v.peer_id) {
            Some(p) => p.rpc_can_send,
            None => false,
        },
        Action::Ledger(_) => true,
        Action::P2pConnection(_) => true,
        Action::CheckTimeouts(_) => true,
        Action::ExternalSnarkWorkerPruneWork => true,
    }
}

/// Accepts or drops one action. An accepted action's enabling condition
/// held on the state at acceptance time, and only the component the
/// action concerns changes, by its reducer's transition; a dropped
/// action leaves the state untouched.
pub fn dispatch(state: &mut State, action: &Action, time: Timestamp) -> (r: bool)
    requires
        old(state).wf(),
    ensures
        final(state).wf(),
        r == spec_action_enabled(*old(state), *action),
        !spec_action_enabled(*old(state), *action) ==> *final(state) == *old(state),
        spec_action_enabled(*old(state), *action) ==> match *action {
            Action::TransitionFrontier(a) => {
                &&& spec_tf_step(
                    old(state).transition_frontier,
                    final(state).transition_frontier,
                    a,
                    time,
                )
                &&& final(state).p2p == old(state).p2p
                &&& final(state).rpc.requests@ == old(state).rpc.requests@
            },
            Action::Rpc(a) => {
                &&& final(state).rpc.requests@ == spec_rpc_apply(old(state).rpc.requests@, a, time)
                &&& final(state).p2p == old(state).p2p
                &&& final(state).transition_frontier == old(state).transition_frontier
            },
            Action::P2pChannelsRpcRequestSend(v) => {
                &&& (forall|q: PeerId|
                    spec_peer_of(final(state).p2p.peers@, q) == (if q == v.peer_id {
                        match spec_peer_of(old(state).p2p.peers@, v.peer_id) {
                            Some(p) => Some(spec_peer_after_send(p)),
                            None => None::<P2pPeer>,
                        }
                    } else {
                        spec_peer_of(old(state).p2p.peers@, q)
                    }))
                &&& final(state).rpc.requests@ == old(state).rpc.requests@
                &&& final(state).transition_frontier == old(state).transition_frontier
            },
            Action::Ledger(_) => *final(state) == *old(state),
            Action::P2pConnection(_) => *final(state) == *old(state),
            Action::CheckTimeouts(_) => *final(state) == *old(state),
            Action::ExternalSnarkWorkerPruneWork => *final(state) == *old(state),
        },
{
    if !check_action_enabled(state, action) {
        return false;
    }
    match action {
        Action::TransitionFrontier(a) => {
            state.transition_frontier.reducer(a, time);
        },
        Action::Rpc(a) => {
            state.rpc.reducer(a, time);
        },
        Action::P2pChannelsRpcRequestSend(v) => {
            match state.p2p.get_ready_peer(v.peer_id) {
                Some(p) => {
                    let next: u64 = if p.next_local_rpc_id == u64::MAX {
                        0
                    } else {
                        p.next_local_rpc_id + 1
                    };
                    state.p2p.upsert_peer(
                        v.peer_id,
                        P2pPeer { ready: p.ready, rpc_can_send: false, next_local_rpc_id: next },
                    );
                },
                None => {},
            }
        },
        Action::Ledger(_) => {},
        Action::P2pConnection(_) => {},
        Action::CheckTimeouts(_) => {},
        Action::ExternalSnarkWorkerPruneWork => {},
    }
    true
}

} // verus!
