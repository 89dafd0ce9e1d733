//! Translation of outside events into actions: connection outcomes and
//! local RPC requests re-enter the deterministic loop here, and each tick
//! is bounded so timeout checks are never starved.

use std::collections::VecDeque;
use vstd::prelude::*;

use crate::p2p_connection::{
    P2pConnectionAction, P2pConnectionIncomingAnswerSdpCreateSuccessAction,
    P2pConnectionIncomingFinalizeSuccessAction, P2pConnectionOutgoingAnswerRecvSuccessAction,
    P2pConnectionOutgoingFinalizeSuccessAction, P2pConnectionOutgoingOfferSdpCreateSuccessAction,
    P2pDisconnectionFinishAction,
};
use crate::rpc::{
    ActionStatsQuery, P2pConnectionIncomingInitOpts, P2pConnectionOutgoingInitOpts,
    RpcActionStatsGetAction, RpcGlobalStateGetAction, RpcP2pConnectionIncomingInitAction,
    RpcP2pConnectionOutgoingInitAction,
};
use crate::state::{Action, CheckTimeoutsAction};
use crate::webrtc::Answer;
use crate::{PeerId, RpcId};

verus! {

/// Most events translated in one tick, so timer checks stay responsive.
pub const EVENTS_PER_TICK: usize = 1024;

/// A connection-level outcome reported from outside.
#[derive(Clone, Copy, Debug, PartialEq, Eq, Structural)]
pub enum P2pConnectionEvent {
    OfferSdpReady(PeerId, u64),
    AnswerSdpReady(PeerId, u64),
    AnswerReceived(PeerId, Answer),
    Opened(PeerId),
    Closed(PeerId),
}

/// A p2p-level outside event.
#[derive(Clone, Copy, Debug, PartialEq, Eq, Structural)]
pub enum P2pEvent {
    Connection(P2pConnectionEvent),
}

/// A local RPC request arriving from outside.
#[derive(Clone, Copy, Debug, PartialEq, Eq, Structural)]
pub enum RpcRequest {
    GetState,
    ActionStatsGet(ActionStatsQuery),
    P2pConnectionOutgoing(P2pConnectionOutgoingInitOpts),
    P2pConnectionIncoming(P2pConnectionIncomingInitOpts),
}

/// Anything the outside world reports.
#[derive(Clone, Copy, Debug, PartialEq, Eq, Structural)]
pub enum Event {
    P2p(P2pEvent),
    Rpc(RpcId, RpcRequest),
}

/// What one outside event becomes inside the loop.
pub open spec fn spec_event_action(e: Event) -> Action {
    match e {
        Event::P2p(P2pEvent::Connection(c)) => match c {
            P2pConnectionEvent::OfferSdpReady(peer_id, sdp) => Action::P2pConnection(
                P2pConnectionAction::OutgoingOfferSdpCreateSuccess(
                    P2pConnectionOutgoingOfferSdpCreateSuccessAction { peer_id, sdp },
                ),
            ),
            P2pConnectionEvent::AnswerSdpReady(peer_id, sdp) => Action::P2pConnection(
                P2pConnectionAction::IncomingAnswerSdpCreateSuccess(
                    P2pConnectionIncomingAnswerSdpCreateSuccessAction { peer_id, sdp },
                ),
            ),
            P2pConnectionEvent::AnswerReceived(peer_id, answer) => Action::P2pConnection(
                P2pConnectionAction::OutgoingAnswerRecvSuccess(
                    P2pConnectionOutgoingAnswerRecvSuccessAction { peer_id, answer },
                ),
            ),
            P2pConnectionEvent::Opened(peer_id) => Action::P2pConnection(
                P2pConnectionAction::OutgoingFinalizeSuccess(
                    P2pConnectionOutgoingFinalizeSuccessAction { peer_id },
                ),
            ),
            P2pConnectionEvent::Closed(peer_id) => Action::P2pConnection(
                P2pConnectionAction::DisconnectionFinish(P2pDisconnectionFinishAction { peer_id }),
            ),
        },
        Event::Rpc(rpc_id, r) => match r {
            RpcRequest::GetState => Action::Rpc(
                crate::rpc::RpcAction::GlobalStateGet(RpcGlobalStateGetAction { rpc_id }),
            ),
            RpcRequest::ActionStatsGet(query) => Action::Rpc(
                crate::rpc::RpcAction::ActionStatsGet(RpcActionStatsGetAction { rpc_id, query }),
            ),
            RpcRequest::P2pConnectionOutgoing(opts) => Action::Rpc(
                crate::rpc::RpcAction::P2pConnectionOutgoingInit(
                    RpcP2pConnectionOutgoingInitAction { rpc_id, opts },
                ),
            ),
            RpcRequest::P2pConnectionIncoming(opts) => Action::Rpc(
                crate::rpc::RpcAction::P2pConnectionIncomingInit(
                    RpcP2pConnectionIncomingInitAction { rpc_id, opts },
                ),
            ),
        },
    }
}

/// An `Opened` event also confirms an accepting connection; it maps to a
/// second action.
pub open spec fn spec_event_second_action(e: Event) -> Option<Action> {
    match e {
        Event::P2p(P2pEvent::Connection(P2pConnectionEvent::Opened(peer_id))) => Some(
            Action::P2pConnection(
                P2pConnectionAction::IncomingFinalizeSuccess(
                    P2pConnectionIncomingFinalizeSuccessAction { peer_id },
                ),
            ),
        ),
        _ => None,
    }
}

/// The actions one run of events becomes, in order.
pub open spec fn spec_events_actions(events: Seq<Event>) -> Seq<Action>
    decreases events.len(),
{
    if events.len() == 0 {
        Seq::empty()
    } else {
        (match spec_event_second_action(events[0]) {
            Some(second) => seq![spec_event_action(events[0]), second],
            None => seq![spec_event_action(events[0])],
        }) + spec_events_actions(events.drop_first())
    }
}

/// Translates pending outside events into actions: up to a tick's worth
/// of events are taken off the front of `events`, each becomes its
/// action (an `Opened` event confirms both connection directions), and a
/// timeout check closes the tick. The remaining events wait for the next
/// tick.
pub fn event_source_effects(events: &mut VecDeque<Event>, queue: &mut Vec<Action>)
    ensures
        ({
            let taken = if old(events)@.len() <= EVENTS_PER_TICK {
                old(events)@
            } else {
                old(events)@.take(EVENTS_PER_TICK as int)
            };
            &&& final(events)@ == old(events)@.skip(taken.len() as int)
            &&& final(queue)@ == old(queue)@ + spec_events_actions(taken) + seq![
                Action::CheckTimeouts(CheckTimeoutsAction {}),
            ]
        }),
{
    let ghost base = old(queue)@;
    let ghost all = old(events)@;
    let ghost taken = if all.len() <= EVENTS_PER_TICK {
        all
    } else {
        all.take(EVENTS_PER_TICK as int)
    };
    let mut processed: usize = 0;
    proof {
        assert(taken.take(0) =~= Seq::<Event>::empty());
        assert(spec_events_actions(taken.take(0)) =~= Seq::<Action>::empty());
        assert(base + Seq::<Action>::empty() =~= base);
    }
    while processed < EVENTS_PER_TICK && events.len() > 0
        invariant
            processed <= EVENTS_PER_TICK,
            processed <= taken.len(),
            taken == (if all.len() <= EVENTS_PER_TICK {
                all
            } else {
                all.take(EVENTS_PER_TICK as int)
            }),
            all.len() <= EVENTS_PER_TICK ==> taken == all,
            events@ == all.skip(processed as int),
            queue@ == base + spec_events_actions(taken.take(processed as int)),
            processed < taken.len() ==> events@.len() > 0,
            processed == taken.len() ==> (all.len() <= EVENTS_PER_TICK ==> events@.len() == 0),
        decreases EVENTS_PER_TICK - processed,
    {
        let e = match events.pop_front() {
            Some(e) => e,
            None => {
                proof {
                    assert(false);
                }
                return ;
            },
        };
        proof {
            assert(all.skip(processed as int)[0] == all[processed as int]);
            assert(all.skip(processed as int).subrange(
                1,
                all.skip(processed as int).len() as int,
            ) =~= all.skip(processed + 1));
            assert(taken[processed as int] == all[processed as int]);
        }
        let ghost preq = queue@;
        match e {
            Event::P2p(P2pEvent::Connection(c)) => match c {
                P2pConnectionEvent::OfferSdpReady(peer_id, sdp) => {
                    queue.push(
                        Action::P2pConnection(
                            P2pConnectionAction::OutgoingOfferSdpCreateSuccess(
                                P2pConnectionOutgoingOfferSdpCreateSuccessAction { peer_id, sdp },
                            ),
                        ),
                    );
                },
                P2pConnectionEvent::AnswerSdpReady(peer_id, sdp) => {
                    queue.push(
                        Action::P2pConnection(
                            P2pConnectionAction::IncomingAnswerSdpCreateSuccess(
                                P2pConnectionIncomingAnswerSdpCreateSuccessAction {
                                    peer_id,
                                    sdp,
                                },
                            ),
                        ),
                    );
                },
                P2pConnectionEvent::AnswerReceived(peer_id, answer) => {
                    queue.push(
                        Action::P2pConnection(
                            P2pConnectionAction::OutgoingAnswerRecvSuccess(
                                P2pConnectionOutgoingAnswerRecvSuccessAction { peer_id, answer },
                            ),
                        ),
                    );
                },
                P2pConnectionEvent::Opened(peer_id) => {
                    queue.push(
                        Action::P2pConnection(
                            P2pConnectionAction::OutgoingFinalizeSuccess(
                                P2pConnectionOutgoingFinalizeSuccessAction { peer_id },
                            ),
                        ),
                    );
                    queue.push(
                        Action::P2pConnection(
                            P2pConnectionAction::IncomingFinalizeSuccess(
                                P2pConnectionIncomingFinalizeSuccessAction { peer_id },
                            ),
                        ),
                    );
                },
                P2pConnectionEvent::Closed(peer_id) => {
                    queue.push(
                        Action::P2pConnection(
                            P2pConnectionAction::DisconnectionFinish(
                                P2pDisconnectionFinishAction { peer_id },
                            ),
                        ),
                    );
                },
            },
            Event::Rpc(rpc_id, r) => match r {
                RpcRequest::GetState => {
                    queue.push(
                        Action::Rpc(
                            crate::rpc::RpcAction::GlobalStateGet(
                                RpcGlobalStateGetAction { rpc_id },
                            ),
                        ),
                    );
                },
                RpcRequest::ActionStatsGet(query) => {
                    queue.push(
                        Action::Rpc(
                            crate::rpc::RpcAction::ActionStatsGet(
                                RpcActionStatsGetAction { rpc_id, query },
                            ),
                        ),
                    );
                },
                RpcRequest::P2pConnectionOutgoing(opts) => {
                    queue.push(
                        Action::Rpc(
                            crate::rpc::RpcAction::P2pConnectionOutgoingInit(
                                RpcP2pConnectionOutgoingInitAction { rpc_id, opts },
                            ),
                        ),
                    );
                },
                RpcRequest::P2pConnectionIncoming(opts) => {
                    queue.push(
                        Action::Rpc(
                            crate::rpc::RpcAction::P2pConnectionIncomingInit(
                                RpcP2pConnectionIncomingInitAction { rpc_id, opts },
                            ),
                        ),
                    );
                },
            },
        }
        proof {
            let ev = taken[processed as int];
            assert(taken.take(processed + 1).drop_last() =~= taken.take(processed as int));
            assert(taken.take(processed + 1).last() == ev);
            lemma_events_actions_snoc(taken.take(processed + 1));
            let step = (match spec_event_second_action(ev) {
                Some(second) => seq![spec_event_action(ev), second],
                None => seq![spec_event_action(ev)],
            });
            assert(queue@ =~= preq + step);
            assert(queue@ =~= base + spec_events_actions(taken.take(processed + 1)));
        }
        processed = processed + 1;
    }
    proof {
        if processed < taken.len() {
            assert(events@.len() > 0);
            assert(processed >= EVENTS_PER_TICK);
            assert(taken.len() <= EVENTS_PER_TICK);
            assert(false);
        }
        assert(taken.take(taken.len() as int) =~= taken);
        assert(events@ =~= all.skip(taken.len() as int));
    }
    let ghost preq = queue@;
    queue.push(Action::CheckTimeouts(CheckTimeoutsAction {}));
    proof {
        assert(queue@ =~= (base + spec_events_actions(taken)) + seq![
            Action::CheckTimeouts(CheckTimeoutsAction {}),
        ]);
    }
}

/// Splitting the last event off a run splits its actions off the back.
pub proof fn lemma_events_actions_snoc(events: Seq<Event>)
    requires
        events.len() > 0,
    ensures
        spec_events_actions(events) == spec_events_actions(events.drop_last()) + (match
            spec_event_second_action(events.last()) {
            Some(second) => seq![spec_event_action(events.last()), second],
            None => seq![spec_event_action(events.last())],
        }),
    decreases events.len(),
{
    if events.len() == 1 {
        assert(events.drop_last() =~= Seq::<Event>::empty());
        assert(events.drop_first() =~= Seq::<Event>::empty());
        assert(spec_events_actions(events.drop_last()) =~= Seq::<Action>::empty());
        assert(spec_events_actions(events) =~= (match spec_event_second_action(events[0]) {
            Some(second) => seq![spec_event_action(events[0]), second],
            None => seq![spec_event_action(events[0])],
        }));
        assert(spec_events_actions(events.drop_last()) + (match spec_event_second_action(
            events.last(),
        ) {
            Some(second) => seq![spec_event_action(events.last()), second],
            None => seq![spec_event_action(events.last())],
        }) =~= spec_events_actions(events));
    } else {
        lemma_events_actions_snoc(events.drop_first());
        assert(events.drop_first().drop_last() =~= events.drop_last().drop_first());
        assert(events.drop_first().last() == events.last());
        assert(events.drop_last()[0] == events[0]);
        let head = (match spec_event_second_action(events[0]) {
            Some(second) => seq![spec_event_action(events[0]), second],
            None => seq![spec_event_action(events[0])],
        });
        let tail = (match spec_event_second_action(events.last()) {
            Some(second) => seq![spec_event_action(events.last()), second],
            None => seq![spec_event_action(events.last())],
        });
        assert(spec_events_actions(events) == head + spec_events_actions(events.drop_first()));
        assert(spec_events_actions(events.drop_last()) == head + spec_events_actions(
            events.drop_last().drop_first(),
        ));
        assert((head + spec_events_actions(events.drop_first().drop_last())) + tail =~= head + (
        spec_events_actions(events.drop_first().drop_last()) + tail));
        assert(spec_events_actions(events) =~= spec_events_actions(events.drop_last()) + tail);
    }
}

} // verus!
