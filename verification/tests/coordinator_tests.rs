use mina_node_core::ledger::{next_addr, LedgerAddress};
use mina_node_core::p2p::P2pPeer;
use mina_node_core::rpc::{
    RpcAction, RpcGlobalStateGetAction, RpcP2pConnectionOutgoingInitAction,
    RpcP2pConnectionOutgoingPendingAction, RpcP2pConnectionOutgoingSuccessAction, RpcFinishAction,
    RpcRequestStatus, P2pConnectionOutgoingInitOpts,
};
use mina_node_core::state::{dispatch, Action, State};
use mina_node_core::sync_ledger::{
    PeerLedgerQueryResponse, TransitionFrontierSyncLedgerAction,
    TransitionFrontierSyncLedgerInitAction,
    TransitionFrontierSyncLedgerStagedLedgerPartsFetchPendingAction,
    TransitionFrontierSyncLedgerStagedLedgerPartsFetchSuccessAction,
    TransitionFrontierSyncLedgerStagedLedgerReconstructPendingAction,
    TransitionFrontierSyncLedgerStagedLedgerReconstructSuccessAction,
    TransitionFrontierSyncLedgerSuccessAction,
    TransitionFrontierSyncLedgerSnarkedLedgerSyncSuccessAction,
    TransitionFrontierSyncLedgerSnarkedLedgerSyncPeerQueryErrorAction,
    TransitionFrontierSyncLedgerSnarkedLedgerSyncPeerQueryInitAction,
    TransitionFrontierSyncLedgerSnarkedLedgerSyncPeerQueryPendingAction,
    TransitionFrontierSyncLedgerSnarkedLedgerSyncPeerQuerySuccessAction,
    TransitionFrontierSyncLedgerSnarkedLedgerSyncPeersQueryAction,
    TransitionFrontierSyncLedgerSnarkedLedgerSyncPendingAction,
    TransitionFrontierSyncLedgerState,
};
use mina_node_core::transition_frontier::{
    TransitionFrontierAction, TransitionFrontierRootLedgerSyncPendingAction,
    TransitionFrontierSyncInitAction, TransitionFrontierSyncState,
};

fn ready_peer(next_id: u64) -> P2pPeer {
    P2pPeer { ready: true, rpc_can_send: true, next_local_rpc_id: next_id }
}

fn tf(a: TransitionFrontierSyncLedgerAction) -> Action {
    Action::TransitionFrontier(TransitionFrontierAction::SyncLedger(a))
}

/// A state with one ready peer and the sync set up to the fetch phase.
fn synced_state() -> State {
    let mut state = State::new();
    state.p2p.upsert_peer(42, ready_peer(100));
    assert!(dispatch(
        &mut state,
        &Action::TransitionFrontier(TransitionFrontierAction::SyncInit(
            TransitionFrontierSyncInitAction { best_tip: 10, root_block: 9, blocks_inbetween: vec![] }
        )),
        1,
    ));
    assert!(dispatch(
        &mut state,
        &Action::TransitionFrontier(TransitionFrontierAction::RootLedgerSyncPending(
            TransitionFrontierRootLedgerSyncPendingAction {}
        )),
        2,
    ));
    assert!(dispatch(
        &mut state,
        &tf(TransitionFrontierSyncLedgerAction::SnarkedLedgerSyncPending(
            TransitionFrontierSyncLedgerSnarkedLedgerSyncPendingAction {}
        )),
        3,
    ));
    state
}

fn root_ledger(state: &State) -> &TransitionFrontierSyncLedgerState {
    match &state.transition_frontier.sync {
        TransitionFrontierSyncState::RootLedgerSyncPending { root_ledger, .. } => root_ledger,
        _ => panic!("sync should be in the root-ledger stage"),
    }
}

fn phase_of(state: &State) -> u32 {
    match root_ledger(state) {
        TransitionFrontierSyncLedgerState::Init { .. } => 0,
        TransitionFrontierSyncLedgerState::SnarkedLedgerSyncPending { .. } => 1,
        TransitionFrontierSyncLedgerState::SnarkedLedgerSyncSuccess { .. } => 2,
        TransitionFrontierSyncLedgerState::StagedLedgerPartsFetchPending { .. } => 3,
        TransitionFrontierSyncLedgerState::StagedLedgerPartsFetchSuccess { .. } => 4,
        TransitionFrontierSyncLedgerState::StagedLedgerReconstructPending { .. } => 5,
        TransitionFrontierSyncLedgerState::StagedLedgerReconstructSuccess { .. } => 6,
        TransitionFrontierSyncLedgerState::Success { .. } => 7,
    }
}

#[test]
fn disabled_actions_leave_the_state_untouched() {
    let mut state = State::new();
    // no sync is running, so every ledger-sync action is disabled
    let accepted = dispatch(
        &mut state,
        &tf(TransitionFrontierSyncLedgerAction::Init(TransitionFrontierSyncLedgerInitAction {})),
        5,
    );
    assert!(!accepted);
    assert_eq!(state.transition_frontier.sync, TransitionFrontierSyncState::Idle);
}

#[test]
fn query_lifecycle_marks_attempts_and_advances_the_walk() {
    let mut state = synced_state();
    let root = LedgerAddress { length: 0, index: 0 };
    // the fan-out initializes the peer's attempt at the root address
    assert!(dispatch(
        &mut state,
        &tf(TransitionFrontierSyncLedgerAction::SnarkedLedgerSyncPeerQueryInit(
            TransitionFrontierSyncLedgerSnarkedLedgerSyncPeerQueryInitAction {
                address: root,
                peer_id: 42,
            }
        )),
        4,
    ));
    assert!(dispatch(
        &mut state,
        &tf(TransitionFrontierSyncLedgerAction::SnarkedLedgerSyncPeerQueryPending(
            TransitionFrontierSyncLedgerSnarkedLedgerSyncPeerQueryPendingAction {
                address: root,
                peer_id: 42,
                rpc_id: 100,
            }
        )),
        5,
    ));
    assert_eq!(
        root_ledger(&state).snarked_ledger_peer_query_get(42, 100),
        Some(root)
    );
    // the response absorbs the address and moves the walk to the next one
    assert!(dispatch(
        &mut state,
        &tf(TransitionFrontierSyncLedgerAction::SnarkedLedgerSyncPeerQuerySuccess(
            TransitionFrontierSyncLedgerSnarkedLedgerSyncPeerQuerySuccessAction {
                peer_id: 42,
                rpc_id: 100,
                response: PeerLedgerQueryResponse::ChildHashes(1, 2),
            }
        )),
        6,
    ));
    assert_eq!(
        root_ledger(&state).snarked_ledger_sync_next(),
        Some(LedgerAddress { length: 1, index: 0 })
    );
    assert_eq!(root_ledger(&state).snarked_ledger_peer_query_get(42, 100), None);
}

#[test]
fn the_same_response_is_not_absorbed_twice() {
    let mut state = synced_state();
    let root = LedgerAddress { length: 0, index: 0 };
    assert!(dispatch(
        &mut state,
        &tf(TransitionFrontierSyncLedgerAction::SnarkedLedgerSyncPeerQueryInit(
            TransitionFrontierSyncLedgerSnarkedLedgerSyncPeerQueryInitAction {
                address: root,
                peer_id: 42,
            }
        )),
        4,
    ));
    assert!(dispatch(
        &mut state,
        &tf(TransitionFrontierSyncLedgerAction::SnarkedLedgerSyncPeerQueryPending(
            TransitionFrontierSyncLedgerSnarkedLedgerSyncPeerQueryPendingAction {
                address: root,
                peer_id: 42,
                rpc_id: 100,
            }
        )),
        5,
    ));
    let success = tf(TransitionFrontierSyncLedgerAction::SnarkedLedgerSyncPeerQuerySuccess(
        TransitionFrontierSyncLedgerSnarkedLedgerSyncPeerQuerySuccessAction {
            peer_id: 42,
            rpc_id: 100,
            response: PeerLedgerQueryResponse::Accounts(vec![7, 8]),
        },
    ));
    assert!(dispatch(&mut state, &success, 6));
    let snapshot = root_ledger(&state).clone();
    // the second application is disabled and changes nothing
    assert!(!dispatch(&mut state, &success, 7));
    assert_eq!(root_ledger(&state), &snapshot);
}

#[test]
fn a_failed_attempt_keeps_the_address_for_another_peer() {
    let mut state = synced_state();
    state.p2p.upsert_peer(43, ready_peer(500));
    // walk past the two level heads so the outstanding address is not at
    // index zero (index-zero addresses are guarded against duplicate
    // initiation at boot)
    let mut time = 4u64;
    for addr in [
        LedgerAddress { length: 0, index: 0 },
        LedgerAddress { length: 1, index: 0 },
    ] {
        assert!(dispatch(
            &mut state,
            &tf(TransitionFrontierSyncLedgerAction::SnarkedLedgerSyncPeerQueryInit(
                TransitionFrontierSyncLedgerSnarkedLedgerSyncPeerQueryInitAction {
                    address: addr,
                    peer_id: 42,
                }
            )),
            time,
        ));
        assert!(dispatch(
            &mut state,
            &tf(TransitionFrontierSyncLedgerAction::SnarkedLedgerSyncPeerQueryPending(
                TransitionFrontierSyncLedgerSnarkedLedgerSyncPeerQueryPendingAction {
                    address: addr,
                    peer_id: 42,
                    rpc_id: 100,
                }
            )),
            time + 1,
        ));
        assert!(dispatch(
            &mut state,
            &tf(TransitionFrontierSyncLedgerAction::SnarkedLedgerSyncPeerQuerySuccess(
                TransitionFrontierSyncLedgerSnarkedLedgerSyncPeerQuerySuccessAction {
                    peer_id: 42,
                    rpc_id: 100,
                    response: PeerLedgerQueryResponse::ChildHashes(1, 2),
                }
            )),
            time + 2,
        ));
        time += 3;
    }
    let outstanding = LedgerAddress { length: 1, index: 1 };
    assert_eq!(root_ledger(&state).snarked_ledger_sync_next(), Some(outstanding));
    assert!(dispatch(
        &mut state,
        &tf(TransitionFrontierSyncLedgerAction::SnarkedLedgerSyncPeerQueryInit(
            TransitionFrontierSyncLedgerSnarkedLedgerSyncPeerQueryInitAction {
                address: outstanding,
                peer_id: 42,
            }
        )),
        time,
    ));
    assert!(dispatch(
        &mut state,
        &tf(TransitionFrontierSyncLedgerAction::SnarkedLedgerSyncPeerQueryPending(
            TransitionFrontierSyncLedgerSnarkedLedgerSyncPeerQueryPendingAction {
                address: outstanding,
                peer_id: 42,
                rpc_id: 100,
            }
        )),
        time + 1,
    ));
    // peer 42 fails; the address stays pending and the walk stays put
    assert!(dispatch(
        &mut state,
        &tf(TransitionFrontierSyncLedgerAction::SnarkedLedgerSyncPeerQueryError(
            TransitionFrontierSyncLedgerSnarkedLedgerSyncPeerQueryErrorAction {
                peer_id: 42,
                rpc_id: 100,
            }
        )),
        time + 2,
    ));
    assert_eq!(root_ledger(&state).snarked_ledger_sync_next(), Some(outstanding));
    // a retry by peer 43 at the same address is enabled and accepted
    assert!(dispatch(
        &mut state,
        &tf(TransitionFrontierSyncLedgerAction::SnarkedLedgerSyncPeerQueryInit(
            TransitionFrontierSyncLedgerSnarkedLedgerSyncPeerQueryInitAction {
                address: outstanding,
                peer_id: 43,
            }
        )),
        time + 3,
    ));
}

#[test]
fn phases_only_ever_move_forward() {
    let mut state = synced_state();
    assert_eq!(phase_of(&state), 1);
    // the fetch phase cannot be left before the walk is complete
    assert!(!dispatch(
        &mut state,
        &tf(TransitionFrontierSyncLedgerAction::SnarkedLedgerSyncSuccess(
            TransitionFrontierSyncLedgerSnarkedLedgerSyncSuccessAction {}
        )),
        9,
    ));
    assert_eq!(phase_of(&state), 1);
    // walking the remaining phases only increases the index, and no
    // backward transition is ever accepted
    let forward = vec![
        tf(TransitionFrontierSyncLedgerAction::StagedLedgerPartsFetchPending(
            TransitionFrontierSyncLedgerStagedLedgerPartsFetchPendingAction {},
        )),
        tf(TransitionFrontierSyncLedgerAction::StagedLedgerPartsFetchSuccess(
            TransitionFrontierSyncLedgerStagedLedgerPartsFetchSuccessAction {},
        )),
        tf(TransitionFrontierSyncLedgerAction::StagedLedgerReconstructPending(
            TransitionFrontierSyncLedgerStagedLedgerReconstructPendingAction {},
        )),
        tf(TransitionFrontierSyncLedgerAction::StagedLedgerReconstructSuccess(
            TransitionFrontierSyncLedgerStagedLedgerReconstructSuccessAction {},
        )),
        tf(TransitionFrontierSyncLedgerAction::Success(
            TransitionFrontierSyncLedgerSuccessAction {},
        )),
    ];
    // none of the later phases is enabled out of order from the fetch
    // phase (the first needs the fetch finished)
    let mut last = phase_of(&state);
    for a in &forward {
        let before = phase_of(&state);
        let accepted = dispatch(&mut state, a, 10);
        let after = phase_of(&state);
        assert!(after >= before);
        if accepted {
            assert!(after >= last);
            last = after;
        } else {
            assert_eq!(after, before);
        }
    }
}

#[test]
fn rpc_requests_walk_their_status_lifecycle() {
    let mut state = State::new();
    let init = Action::Rpc(RpcAction::P2pConnectionOutgoingInit(
        RpcP2pConnectionOutgoingInitAction {
            rpc_id: 8,
            opts: P2pConnectionOutgoingInitOpts { peer_id: 1, address: 2 },
        },
    ));
    assert!(dispatch(&mut state, &init, 1));
    assert!(matches!(
        state.rpc.requests.get(&8).unwrap().status,
        RpcRequestStatus::Init { .. }
    ));
    // a second init under the same id is refused
    assert!(!dispatch(&mut state, &init, 2));
    // progress: pending, then success, then cleanup
    assert!(dispatch(
        &mut state,
        &Action::Rpc(RpcAction::P2pConnectionOutgoingPending(
            RpcP2pConnectionOutgoingPendingAction { rpc_id: 8 }
        )),
        3,
    ));
    // success requires pending, not init: a repeat of pending is refused
    assert!(!dispatch(
        &mut state,
        &Action::Rpc(RpcAction::P2pConnectionOutgoingPending(
            RpcP2pConnectionOutgoingPendingAction { rpc_id: 8 }
        )),
        4,
    ));
    assert!(dispatch(
        &mut state,
        &Action::Rpc(RpcAction::P2pConnectionOutgoingSuccess(
            RpcP2pConnectionOutgoingSuccessAction { rpc_id: 8 }
        )),
        5,
    ));
    assert!(dispatch(
        &mut state,
        &Action::Rpc(RpcAction::Finish(RpcFinishAction { rpc_id: 8 })),
        6,
    ));
    assert!(state.rpc.requests.get(&8).is_none());
    // queries are always enabled and leave the table alone
    assert!(dispatch(
        &mut state,
        &Action::Rpc(RpcAction::GlobalStateGet(RpcGlobalStateGetAction { rpc_id: 9 })),
        7,
    ));
    assert!(state.rpc.requests.get(&9).is_none());
}

#[test]
fn effects_fan_queries_out_to_ready_peers() {
    let mut state = synced_state();
    state.p2p.upsert_peer(43, ready_peer(7));
    state.p2p.upsert_peer(44, P2pPeer { ready: true, rpc_can_send: false, next_local_rpc_id: 0 });
    let mut queue: Vec<Action> = Vec::new();
    TransitionFrontierSyncLedgerSnarkedLedgerSyncPeersQueryAction {}.effects(&state, &mut queue);
    // one init per ready peer whose channel can send: peers 42 and 43
    let peers: Vec<u64> = queue
        .iter()
        .filter_map(|a| match a {
            Action::TransitionFrontier(TransitionFrontierAction::SyncLedger(
                TransitionFrontierSyncLedgerAction::SnarkedLedgerSyncPeerQueryInit(v),
            )) => Some(v.peer_id),
            _ => None,
        })
        .collect();
    assert_eq!(peers, vec![42, 43]);
}

#[test]
fn next_addr_walks_the_level_then_descends() {
    assert_eq!(
        next_addr(LedgerAddress { length: 0, index: 0 }),
        Some(LedgerAddress { length: 1, index: 0 })
    );
    assert_eq!(
        next_addr(LedgerAddress { length: 1, index: 0 }),
        Some(LedgerAddress { length: 1, index: 1 })
    );
    assert_eq!(
        next_addr(LedgerAddress { length: 1, index: 1 }),
        Some(LedgerAddress { length: 2, index: 0 })
    );
    assert_eq!(next_addr(LedgerAddress { length: 34, index: (1 << 34) - 1 }), None);
}
