//! The Yamux session reducer: every session action — incoming bytes,
//! outgoing payload, parsed frames, pings, stream opens — is applied here,
//! and every side effect leaves as a dispatched follow-up action.

use std::collections::VecDeque;
use vstd::prelude::*;

use crate::p2p_network::{
    actions_view, P2pNetworkAction, P2pNetworkActionV, P2pNetworkConnectionError,
    P2pNetworkConnectionMuxState, P2pNetworkConnectionState, P2pNetworkNoiseActionV,
    P2pNetworkSchedulerAction, P2pNetworkSchedulerState, P2pNetworkSelectActionV,
    P2pNetworkStreamState, P2pNetworkStreams, SelectKind, spec_incoming_stream_count,
};
use crate::yamux::actions::{P2pNetworkYamuxAction, P2pNetworkYamuxActionV, YamuxPing};
use crate::yamux::frame::{
    frame_v_len, frames_view, spec_encode_frame, StreamId, YamuxFlags, YamuxFrame,
    YamuxFrameInner, YamuxFrameInnerV, YamuxFrameV, YamuxTerminated,
};
use crate::yamux::state::{
    drain_pending, spec_drain, spec_split_prefix, spec_split_suffix, stream_v_default,
    stream_v_incoming, streams_map_view, P2pNetworkYamuxState, YamuxStreamState,
    YamuxStreamStateV, WINDOW_REFILL_AMOUNT, WINDOW_REFILL_THRESHOLD,
};
use crate::Timestamp;

verus! {

broadcast use vstd::std_specs::btree::group_btree_axioms, vstd::laws_cmp::group_laws_cmp;

/// Why a session action could not be applied. Each case is a caller bug,
/// not a protocol failure: the state is left for the scheduler to clean up.
#[derive(Clone, Copy, Debug, PartialEq, Eq, Structural)]
pub enum YamuxReducerError {
    /// No connection is registered under the action's address.
    ConnectionNotFound,
    /// The connection has not negotiated Yamux yet.
    InvalidMuxState,
    /// The action names a stream the session does not know.
    StreamNotFound(StreamId),
}

/// A window after applying a signed delta: negative deltas saturate at
/// zero, positive deltas wrap modulo 2^32.
pub open spec fn spec_window_after(w0: u32, difference: i32) -> u32 {
    if difference < 0 {
        if w0 + difference < 0 {
            0u32
        } else {
            (w0 + difference) as u32
        }
    } else {
        ((w0 + difference) % 0x1_0000_0000) as u32
    }
}

/// The polite rejection of an incoming stream over the limit: an empty Data
/// frame carrying only FIN.
pub open spec fn spec_fin_reject_frame(stream_id: StreamId) -> YamuxFrameV {
    YamuxFrameV {
        flags: YamuxFlags { syn: false, ack: false, fin: true, rst: false },
        stream_id,
        inner: YamuxFrameInnerV::Data(Seq::empty()),
    }
}

/// The proactive window refill frame: more credit for the remote on one
/// stream.
pub open spec fn spec_refill_frame(stream_id: StreamId) -> YamuxFrameV {
    YamuxFrameV {
        flags: YamuxFlags { syn: false, ack: false, fin: false, rst: false },
        stream_id,
        inner: YamuxFrameInnerV::WindowUpdate { difference: WINDOW_REFILL_AMOUNT },
    }
}

/// The reply to a ping: same opaque tag, ACK set.
pub open spec fn spec_ping_response_frame(stream_id: StreamId, opaque: i32) -> YamuxFrameV {
    YamuxFrameV {
        flags: YamuxFlags { syn: false, ack: true, fin: false, rst: false },
        stream_id,
        inner: YamuxFrameInnerV::Ping { opaque },
    }
}

/// Flags actually sent with outgoing payload: a first use of a local stream
/// adds SYN; the first reply on a remote stream adds ACK.
pub open spec fn spec_outgoing_data_flags(st: YamuxStreamStateV, flags: YamuxFlags) -> YamuxFlags {
    if !st.incoming && !st.established && !st.syn_sent {
        YamuxFlags { syn: true, ..flags }
    } else if st.incoming && !st.established {
        YamuxFlags { ack: true, ..flags }
    } else {
        flags
    }
}

/// Everything handling one incoming frame changes in the session and the
/// connection: the stream table, the connection's logical streams, the
/// termination flag, and the frames a window grant released for sending.
pub struct SpecFrameMutation {
    pub streams: Map<StreamId, YamuxStreamStateV>,
    pub conn_streams: Map<StreamId, P2pNetworkStreamState>,
    pub terminated: Option<YamuxTerminated>,
    pub flushed: Seq<YamuxFrameV>,
    /// The Data payload was longer than the receive window had granted:
    /// a remote flow-control violation, reported as a peer error.
    pub underflow: bool,
}

/// State mutation for one dequeued incoming frame: SYN creates the stream
/// (and, off stream 0, its connection record), ACK marks it established,
/// Data consumes receive-window credit saturating at zero, a WindowUpdate
/// adjusts the send window and drains what the new credit admits, and
/// GoAway terminates the session.
pub open spec fn spec_apply_incoming_frame(
    streams: Map<StreamId, YamuxStreamStateV>,
    conn_streams: Map<StreamId, P2pNetworkStreamState>,
    fv: YamuxFrameV,
    time: Timestamp,
) -> SpecFrameMutation {
    let id = fv.stream_id;
    let s1 = if fv.flags.syn {
        streams.insert(id, stream_v_incoming())
    } else {
        streams
    };
    let c1 = if fv.flags.syn && id != 0 {
        conn_streams.insert(id, P2pNetworkStreamState { incoming: true, kind: None, time })
    } else {
        conn_streams
    };
    let s2 = if fv.flags.ack {
        let base = if s1.contains_key(id) {
            s1[id]
        } else {
            stream_v_default()
        };
        s1.insert(id, YamuxStreamStateV { established: true, ..base })
    } else {
        s1
    };
    match fv.inner {
        YamuxFrameInnerV::Data(d) => {
            if s2.contains_key(id) {
                let st = s2[id];
                let w = if st.window_ours >= d.len() {
                    (st.window_ours - d.len()) as u32
                } else {
                    0u32
                };
                SpecFrameMutation {
                    streams: s2.insert(id, YamuxStreamStateV { window_ours: w, ..st }),
                    conn_streams: c1,
                    terminated: None,
                    flushed: Seq::empty(),
                    underflow: d.len() > st.window_ours,
                }
            } else {
                SpecFrameMutation {
                    streams: s2,
                    conn_streams: c1,
                    terminated: None,
                    flushed: Seq::empty(),
                    underflow: false,
                }
            }
        },
        YamuxFrameInnerV::WindowUpdate { difference } => {
            let base = if s2.contains_key(id) {
                s2[id]
            } else {
                stream_v_incoming()
            };
            let w = spec_window_after(base.window_theirs, difference);
            if difference > 0 {
                let d = spec_drain(base.pending, w as int);
                SpecFrameMutation {
                    streams: s2.insert(
                        id,
                        YamuxStreamStateV { window_theirs: w, pending: d.remaining, ..base },
                    ),
                    conn_streams: c1,
                    terminated: None,
                    flushed: d.sent,
                    underflow: false,
                }
            } else {
                SpecFrameMutation {
                    streams: s2.insert(id, YamuxStreamStateV { window_theirs: w, ..base }),
                    conn_streams: c1,
                    terminated: None,
                    flushed: Seq::empty(),
                    underflow: false,
                }
            }
        },
        YamuxFrameInnerV::Ping { .. } => SpecFrameMutation {
            streams: s2,
            conn_streams: c1,
            terminated: None,
            flushed: Seq::empty(),
            underflow: false,
        },
        YamuxFrameInnerV::GoAway(res) => SpecFrameMutation {
            streams: s2,
            conn_streams: c1,
            terminated: Some(Ok(res)),
            flushed: Seq::empty(),
            underflow: false,
        },
    }
}

/// Whether the head of the session's incoming queue exists and models the
/// given frame: only such an action is processed, so the queue stays the
/// one source of truth.
pub open spec fn spec_head_matches(session: P2pNetworkYamuxState, fv: YamuxFrameV) -> bool {
    session.incoming@.len() > 0 && session.incoming@[0]@ == fv
}

/// Dequeues the front of the session's incoming queue, provided it models
/// the handed frame, and applies its state mutation; hands back the frames
/// a window grant released, whether the head was processed, and whether the
/// payload violated the receive window. A missing or mismatched head
/// leaves everything alone.
fn apply_incoming_frame(
    session: &mut P2pNetworkYamuxState,
    conn_streams: &mut P2pNetworkStreams,
    frame: &YamuxFrame,
    time: Timestamp,
) -> (r: (VecDeque<YamuxFrame>, bool, bool))
    requires
        old(conn_streams).wf(),
        old(session).terminated is None,
    ensures
        final(conn_streams).wf(),
        final(session).buffer == old(session).buffer,
        final(session).message_size_limit == old(session).message_size_limit,
        final(session).pending_outgoing_limit == old(session).pending_outgoing_limit,
        r.1 == spec_head_matches(*old(session), frame@),
        !spec_head_matches(*old(session), frame@) ==> {
            &&& *final(session) == *old(session)
            &&& *final(conn_streams) == *old(conn_streams)
            &&& r.0@.len() == 0
            &&& r.2 == false
        },
        spec_head_matches(*old(session), frame@) ==> ({
            let m = spec_apply_incoming_frame(
                streams_map_view(old(session).streams@),
                old(conn_streams)@,
                frame@,
                time,
            );
            &&& final(session).incoming@ == old(session).incoming@.drop_first()
            &&& streams_map_view(final(session).streams@) == m.streams
            &&& final(conn_streams)@ == m.conn_streams
            &&& final(session).terminated == m.terminated
            &&& frames_view(r.0@) == m.flushed
            &&& r.2 == m.underflow
        }),
{
    if session.incoming.len() == 0 {
        return (VecDeque::new(), false, false);
    }
    if !session.incoming[0].frame_matches(frame) {
        return (VecDeque::new(), false, false);
    }
    let mut underflow = false;
    let popped = match session.incoming.pop_front() {
        None => {
            proof {
                assert(false);
            }
            return (VecDeque::new(), false, false);
        },
        Some(f) => f,
    };
    proof {
        assert(old(session).incoming@.drop_first() =~= old(session).incoming@.subrange(
            1,
            old(session).incoming@.len() as int,
        ));
    }
    let ghost fv = popped@;
    let ghost streams0 = streams_map_view(old(session).streams@);
    let id = popped.stream_id;
    if popped.flags.syn {
        let ghost pre = session.streams@;
        let st_in = YamuxStreamState::incoming();
        session.streams.insert(id, st_in);
        proof {
            crate::yamux::state::lemma_streams_map_view_insert(pre, id, st_in);
            assert(st_in@ =~= stream_v_incoming());
        }
        if id != 0 {
            conn_streams.insert(id, P2pNetworkStreamState::new_incoming(time));
        }
    }
    if popped.flags.ack {
        let ghost pre = session.streams@;
        let ghost base_ack = if streams_map_view(pre).contains_key(id) {
            streams_map_view(pre)[id]
        } else {
            stream_v_default()
        };
        let mut st = match session.streams.remove(&id) {
            Some(s) => s,
            None => YamuxStreamState::default(),
        };
        proof {
            assert(st@ =~= base_ack);
        }
        st.established = true;
        session.streams.insert(id, st);
        proof {
            crate::yamux::state::lemma_streams_map_view_remove(pre, id);
            crate::yamux::state::lemma_streams_map_view_insert(pre.remove(id), id, st);
            assert(streams_map_view(session.streams@) =~= streams_map_view(pre).insert(id, st@));
            assert(st@ =~= (YamuxStreamStateV { established: true, ..base_ack }));
        }
    }
    let ghost s2 = streams_map_view(session.streams@);
    match popped.inner {
        YamuxFrameInner::Data(d) => {
            let ghost pre = session.streams@;
            match session.streams.remove(&id) {
                Some(mut st) => {
                    let ghost st0 = st@;
                    let len64: u64 = d.len() as u64;
                    if (st.window_ours as u64) < len64 {
                        underflow = true;
                        st.window_ours = 0;
                    } else {
                        st.window_ours = st.window_ours - (d.len() as u32);
                    }
                    session.streams.insert(id, st);
                    proof {
                        crate::yamux::state::lemma_streams_map_view_remove(pre, id);
                        crate::yamux::state::lemma_streams_map_view_insert(pre.remove(id), id, st);
                        assert(streams_map_view(session.streams@) =~= s2.insert(id, st@));
                        assert(st@ =~= (YamuxStreamStateV {
                            window_ours: st.window_ours,
                            ..st0
                        }));
                    }
                },
                None => {
                    proof {
                        assert(streams_map_view(session.streams@) =~= s2);
                    }
                },
            }
            let fl: VecDeque<YamuxFrame> = VecDeque::new();
            proof {
                assert(frames_view(fl@) =~= Seq::<YamuxFrameV>::empty());
            }
            (fl, true, underflow)
        },
        YamuxFrameInner::WindowUpdate { difference } => {
            let ghost pre = session.streams@;
            let mut st = match session.streams.remove(&id) {
                Some(s) => s,
                None => YamuxStreamState::incoming(),
            };
            let ghost base = if s2.contains_key(id) {
                s2[id]
            } else {
                stream_v_incoming()
            };
            proof {
                assert(st@ == base);
            }
            st.update_window(false, difference);
            proof {
                assert(st.window_theirs == spec_window_after(base.window_theirs, difference));
            }
            let mut flushed: VecDeque<YamuxFrame> = VecDeque::new();
            if difference > 0 {
                let w = st.window_theirs;
                drain_pending(&mut st.pending, w, &mut flushed);
                proof {
                    let d = spec_drain(base.pending, st.window_theirs as int);
                    assert(frames_view(flushed@) =~= Seq::<YamuxFrameV>::empty() + d.sent);
                    assert(frames_view(flushed@) =~= d.sent);
                    assert(st@ =~= (YamuxStreamStateV {
                        window_theirs: st.window_theirs,
                        pending: d.remaining,
                        ..base
                    }));
                }
            } else {
                proof {
                    assert(st@ =~= (YamuxStreamStateV { window_theirs: st.window_theirs, ..base }));
                }
            }
            session.streams.insert(id, st);
            proof {
                crate::yamux::state::lemma_streams_map_view_remove(pre, id);
                crate::yamux::state::lemma_streams_map_view_insert(pre.remove(id), id, st);
                assert(streams_map_view(session.streams@) =~= s2.insert(id, st@));
            }
            (flushed, true, false)
        },
        YamuxFrameInner::Ping { .. } => {
            let fl: VecDeque<YamuxFrame> = VecDeque::new();
            proof {
                assert(frames_view(fl@) =~= Seq::<YamuxFrameV>::empty());
            }
            (fl, true, false)
        },
        YamuxFrameInner::GoAway(res) => {
            session.set_res(res);
            let fl: VecDeque<YamuxFrame> = VecDeque::new();
            proof {
                assert(frames_view(fl@) =~= Seq::<YamuxFrameV>::empty());
            }
            (fl, true, false)
        },
    }
}

// ---------------------------------------------------------------------------
// Outgoing frames
// ---------------------------------------------------------------------------
/// Everything sending one frame changes: the stream's new state, the frame
/// actually serialized (the whole frame, its window-sized prefix, or
/// nothing if it was queued), whether the queue outgrew its limit, and
/// whether a FIN closed the stream's connection record.
pub struct SpecOutgoingFrame {
    pub stream: YamuxStreamStateV,
    pub sent: Option<YamuxFrameV>,
    pub overflow: bool,
    pub fin: bool,
}

/// Window accounting and queueing for one outgoing frame. Payload within
/// the send window goes out whole; payload partly covered is split, the
/// prefix sent and the suffix queued; with no usable window, or frames
/// already waiting, the whole frame is queued, overflowing the queue limit
/// if the queued bytes outgrow it. A frame that goes out applies its flags:
/// FIN closes the stream for writing, ACK marks it established, SYN marks
/// the open as sent.
pub open spec fn spec_outgoing_frame_step(
    st: YamuxStreamStateV,
    fv: YamuxFrameV,
    limit: int,
) -> SpecOutgoingFrame {
    let staged = match fv.inner {
        YamuxFrameInnerV::Data(d) => {
            if d.len() <= st.window_theirs {
                SpecOutgoingFrame {
                    stream: YamuxStreamStateV {
                        window_theirs: (st.window_theirs - d.len()) as u32,
                        ..st
                    },
                    sent: Some(fv),
                    overflow: false,
                    fin: false,
                }
            } else if st.window_theirs != 0 && st.pending.len() == 0 {
                SpecOutgoingFrame {
                    stream: YamuxStreamStateV {
                        window_theirs: 0,
                        pending: seq![spec_split_suffix(fv, st.window_theirs as int)],
                        ..st
                    },
                    sent: Some(spec_split_prefix(fv, st.window_theirs as int)),
                    overflow: false,
                    fin: false,
                }
            } else {
                let q = st.pending.push(fv);
                SpecOutgoingFrame {
                    stream: YamuxStreamStateV { pending: q, ..st },
                    sent: None,
                    overflow: crate::yamux::state::spec_pending_total_v(q) > limit,
                    fin: false,
                }
            }
        },
        YamuxFrameInnerV::WindowUpdate { difference } => SpecOutgoingFrame {
            stream: YamuxStreamStateV {
                window_ours: spec_window_after(st.window_ours, difference),
                ..st
            },
            sent: Some(fv),
            overflow: false,
            fin: false,
        },
        _ => SpecOutgoingFrame { stream: st, sent: Some(fv), overflow: false, fin: false },
    };
    match staged.sent {
        None => staged,
        Some(sf) => {
            if sf.flags.fin {
                SpecOutgoingFrame {
                    stream: YamuxStreamStateV { writable: false, ..staged.stream },
                    sent: staged.sent,
                    overflow: staged.overflow,
                    fin: true,
                }
            } else {
                SpecOutgoingFrame {
                    stream: YamuxStreamStateV {
                        established: staged.stream.established || sf.flags.ack,
                        syn_sent: staged.stream.syn_sent || sf.flags.syn,
                        ..staged.stream
                    },
                    sent: staged.sent,
                    overflow: staged.overflow,
                    fin: false,
                }
            }
        },
    }
}

/// Whether the queued pending frames hold more payload bytes than the
/// session's limit admits.
fn pending_exceeds(pending: &VecDeque<YamuxFrame>, limit: usize) -> (r: bool)
    ensures
        r == (crate::yamux::state::spec_pending_total(pending@) > limit),
{
    let mut acc: u128 = 0;
    let mut i: usize = 0;
    let n = pending.len();
    while i < n && acc <= limit as u128
        invariant
            i <= n,
            n == pending@.len(),
            acc == crate::yamux::state::spec_pending_total(pending@.take(i as int)),
        decreases n - i,
    {
        let len = pending[i].len();
        proof {
            assert(pending@.take(i + 1).drop_last() =~= pending@.take(i as int));
            assert(pending@.take(i + 1).last() == pending@[i as int]);
            crate::yamux::state::lemma_pending_total_push(
                pending@.take(i as int),
                pending@[i as int],
            );
            assert(pending@.take(i + 1) =~= pending@.take(i as int).push(pending@[i as int]));
            crate::yamux::state::lemma_pending_total_nonneg(pending@.take(i as int));
        }
        acc = acc + (len as u128);
        i = i + 1;
    }
    proof {
        crate::yamux::state::lemma_pending_total_split(pending@, i as int);
        crate::yamux::state::lemma_pending_total_nonneg(pending@.skip(i as int));
        if i < n {
            crate::yamux::state::lemma_pending_total_nonneg(pending@.take(i as int));
        }
        assert(pending@.take(n as int) =~= pending@);
    }
    acc > limit as u128
}

/// Appends one action to the dispatch queue.
fn push_action(dispatched: &mut Vec<P2pNetworkAction>, a: P2pNetworkAction)
    ensures
        actions_view(final(dispatched)@) == actions_view(old(dispatched)@) + seq![a@],
{
    let ghost pre = dispatched@;
    let ghost av = a@;
    dispatched.push(a);
    proof {
        assert(actions_view(dispatched@) =~= actions_view(pre) + seq![av]);
    }
}

/// The follow-up actions that re-send a run of released frames.
pub open spec fn spec_outgoing_frame_dispatches(
    addr: crate::ConnectionAddr,
    frames: Seq<YamuxFrameV>,
) -> Seq<P2pNetworkActionV> {
    frames.map_values(
        |f: YamuxFrameV|
            P2pNetworkActionV::Yamux(P2pNetworkYamuxActionV::OutgoingFrame { addr, frame: f }),
    )
}

/// The follow-up actions that hand a run of parsed frames to the session.
pub open spec fn spec_incoming_frame_dispatches(
    addr: crate::ConnectionAddr,
    frames: Seq<YamuxFrameV>,
) -> Seq<P2pNetworkActionV> {
    frames.map_values(
        |f: YamuxFrameV|
            P2pNetworkActionV::Yamux(P2pNetworkYamuxActionV::IncomingFrame { addr, frame: f }),
    )
}

/// Dispatches every released frame, in order, for window accounting and
/// serialization.
fn dispatch_flushed(
    dispatched: &mut Vec<P2pNetworkAction>,
    addr: crate::ConnectionAddr,
    flushed: VecDeque<YamuxFrame>,
)
    ensures
        actions_view(final(dispatched)@) == actions_view(old(dispatched)@)
            + spec_outgoing_frame_dispatches(addr, frames_view(flushed@)),
{
    let ghost base = actions_view(old(dispatched)@);
    let ghost all = frames_view(flushed@);
    let mut rest = flushed;
    loop
        invariant
            base == actions_view(old(dispatched)@),
            all == frames_view(flushed@),
            actions_view(dispatched@) + spec_outgoing_frame_dispatches(
                addr,
                frames_view(rest@),
            ) =~= base + spec_outgoing_frame_dispatches(addr, all),
        decreases rest@.len(),
    {
        let ghost cur = frames_view(rest@);
        match rest.pop_front() {
            None => {
                proof {
                    assert(spec_outgoing_frame_dispatches(addr, cur)
                        =~= Seq::<P2pNetworkActionV>::empty());
                    assert(actions_view(dispatched@) + Seq::<P2pNetworkActionV>::empty()
                        =~= actions_view(dispatched@));
                }
                return ;
            },
            Some(f) => {
                let ghost prev = actions_view(dispatched@);
                let ghost fv = f@;
                push_action(
                    dispatched,
                    P2pNetworkAction::Yamux(P2pNetworkYamuxAction::OutgoingFrame { addr, frame: f }),
                );
                proof {
                    assert(frames_view(rest@) =~= cur.drop_first());
                    assert(spec_outgoing_frame_dispatches(addr, cur) =~= seq![
                        P2pNetworkActionV::Yamux(
                            P2pNetworkYamuxActionV::OutgoingFrame { addr, frame: fv },
                        ),
                    ] + spec_outgoing_frame_dispatches(addr, cur.drop_first()));
                    assert((prev + seq![
                        P2pNetworkActionV::Yamux(
                            P2pNetworkYamuxActionV::OutgoingFrame { addr, frame: fv },
                        ),
                    ]) + spec_outgoing_frame_dispatches(addr, cur.drop_first()) =~= prev
                        + spec_outgoing_frame_dispatches(addr, cur));
                }
            },
        }
    }
}

/// Dispatches one IncomingFrame action per parsed frame still queued, in
/// order, each carrying a copy of the frame.
fn dispatch_incoming(
    dispatched: &mut Vec<P2pNetworkAction>,
    addr: crate::ConnectionAddr,
    incoming: &VecDeque<YamuxFrame>,
)
    ensures
        actions_view(final(dispatched)@) == actions_view(old(dispatched)@)
            + spec_incoming_frame_dispatches(addr, frames_view(incoming@)),
{
    let ghost base = actions_view(old(dispatched)@);
    let ghost all = frames_view(incoming@);
    let n = incoming.len();
    let mut i: usize = 0;
    while i < n
        invariant
            i <= n,
            n == incoming@.len(),
            base == actions_view(old(dispatched)@),
            all == frames_view(incoming@),
            actions_view(dispatched@) =~= base + spec_incoming_frame_dispatches(
                addr,
                all.take(i as int),
            ),
        decreases n - i,
    {
        let frame = incoming[i].duplicate();
        let ghost prev = actions_view(dispatched@);
        let ghost fv = frame@;
        push_action(
            dispatched,
            P2pNetworkAction::Yamux(P2pNetworkYamuxAction::IncomingFrame { addr, frame }),
        );
        proof {
            assert(all.take(i + 1) =~= all.take(i as int).push(fv));
            assert(spec_incoming_frame_dispatches(addr, all.take(i + 1))
                =~= spec_incoming_frame_dispatches(addr, all.take(i as int)).push(
                P2pNetworkActionV::Yamux(
                    P2pNetworkYamuxActionV::IncomingFrame { addr, frame: fv },
                ),
            ));
            assert(actions_view(dispatched@) =~= base + spec_incoming_frame_dispatches(
                addr,
                all.take(i + 1),
            ));
        }
        i = i + 1;
    }
    proof {
        assert(all.take(n as int) =~= all);
    }
}

/// Applies window accounting, queueing and flag effects for one outgoing
/// frame, and dispatches the serialized bytes to the encryption layer, or
/// the overflow error if the pending queue outgrew its limit. A frame for
/// an unknown stream is dropped silently.
#[verifier::rlimit(80)]
fn apply_outgoing_frame(
    session: &mut P2pNetworkYamuxState,
    conn_streams: &mut P2pNetworkStreams,
    addr: crate::ConnectionAddr,
    frame: YamuxFrame,
    dispatched: &mut Vec<P2pNetworkAction>,
)
    requires
        old(conn_streams).wf(),
        crate::yamux::frame::frame_wf(frame@),
    ensures
        final(conn_streams).wf(),
        final(session).buffer == old(session).buffer,
        final(session).incoming == old(session).incoming,
        final(session).terminated == old(session).terminated,
        final(session).message_size_limit == old(session).message_size_limit,
        final(session).pending_outgoing_limit == old(session).pending_outgoing_limit,
        !streams_map_view(old(session).streams@).contains_key(frame@.stream_id) ==> {
            &&& final(session).streams@ == old(session).streams@
            &&& *final(conn_streams) == *old(conn_streams)
            &&& actions_view(final(dispatched)@) == actions_view(old(dispatched)@)
        },
        streams_map_view(old(session).streams@).contains_key(frame@.stream_id) ==> ({
            let id = frame@.stream_id;
            let st0 = streams_map_view(old(session).streams@)[id];
            let o = spec_outgoing_frame_step(st0, frame@, old(session).pending_outgoing_limit as int);
            &&& streams_map_view(final(session).streams@) == streams_map_view(
                old(session).streams@,
            ).insert(id, o.stream)
            &&& final(conn_streams)@ == (if o.fin {
                old(conn_streams)@.remove(id)
            } else {
                old(conn_streams)@
            })
            &&& actions_view(final(dispatched)@) == actions_view(old(dispatched)@) + (match o.sent {
                Some(sf) => seq![
                    P2pNetworkActionV::Noise(
                        P2pNetworkNoiseActionV::OutgoingData {
                            addr,
                            data: spec_encode_frame(sf),
                        },
                    ),
                ],
                None => if o.overflow {
                    seq![
                        P2pNetworkActionV::Scheduler(
                            P2pNetworkSchedulerAction::Error {
                                addr,
                                error: P2pNetworkConnectionError::YamuxOverflow(id),
                            },
                        ),
                    ]
                } else {
                    Seq::<P2pNetworkActionV>::empty()
                },
            })
        }),
{
    let mut frame = frame;
    let ghost fv = frame@;
    let id = frame.stream_id;
    let ghost pre = session.streams@;
    let ghost streams0 = streams_map_view(old(session).streams@);
    let mut st = match session.streams.remove(&id) {
        Some(s) => s,
        None => {
            proof {
                crate::yamux::state::lemma_streams_map_view_remove(pre, id);
                assert(!pre.contains_key(id));
                assert(pre.remove(id) =~= pre);
                assert(actions_view(dispatched@) + Seq::<P2pNetworkActionV>::empty()
                    =~= actions_view(dispatched@));
            }
            return ;
        },
    };
    let ghost st0 = st@;
    let ghost limit = session.pending_outgoing_limit as int;
    let ghost o = spec_outgoing_frame_step(st0, fv, limit);
    match &frame.inner {
        YamuxFrameInner::Data(d) => {
            let len = d.len();
            if (len as u64) <= (st.window_theirs as u64) {
                st.window_theirs = st.window_theirs - (len as u32);
            } else if st.window_theirs != 0 && st.pending.len() == 0 {
                let w = st.window_theirs;
                let suffix = match frame.split_at(w as usize) {
                    Some(sfx) => sfx,
                    None => {
                        proof {
                            assert(false);
                        }
                        return ;
                    },
                };
                let ghost pre_pending = st.pending@;
                st.pending.push_back(suffix);
                st.window_theirs = 0;
                proof {
                    assert(frames_view(st.pending@) =~= seq![spec_split_suffix(fv, w as int)]);
                    assert(frame@ =~= spec_split_prefix(fv, w as int));
                }
            } else {
                let ghost pre_pending = frames_view(st.pending@);
                st.pending.push_back(frame);
                proof {
                    assert(frames_view(st.pending@) =~= pre_pending.push(fv));
                    crate::yamux::state::lemma_pending_total_view(st.pending@);
                }
                let over = pending_exceeds(&st.pending, session.pending_outgoing_limit);
                session.streams.insert(id, st);
                proof {
                    crate::yamux::state::lemma_streams_map_view_remove(pre, id);
                    crate::yamux::state::lemma_streams_map_view_insert(pre.remove(id), id, st);
                    assert(streams_map_view(session.streams@) =~= streams0.insert(id, o.stream));
                }
                if over {
                    push_action(
                        dispatched,
                        P2pNetworkAction::Scheduler(
                            P2pNetworkSchedulerAction::Error {
                                addr,
                                error: P2pNetworkConnectionError::YamuxOverflow(id),
                            },
                        ),
                    );
                } else {
                    proof {
                        assert(actions_view(dispatched@) + Seq::<P2pNetworkActionV>::empty()
                            =~= actions_view(dispatched@));
                    }
                }
                return ;
            }
        },
        YamuxFrameInner::WindowUpdate { difference } => {
            let diff = *difference;
            st.update_window(true, diff);
            proof {
                assert(st.window_ours == spec_window_after(st0.window_ours, diff));
            }
        },
        _ => {},
    }
    // the frame goes out: apply its flags to the stream and the connection
    let ghost sent_v = frame@;
    proof {
        assert(o.sent == Some(sent_v));
        assert(crate::yamux::frame::frame_wf(sent_v));
    }
    if frame.flags.fin {
        conn_streams.remove(frame.stream_id);
        st.writable = false;
    } else {
        if frame.flags.ack {
            st.established = true;
        }
        if frame.flags.syn {
            st.syn_sent = true;
        }
    }
    session.streams.insert(id, st);
    proof {
        crate::yamux::state::lemma_streams_map_view_remove(pre, id);
        crate::yamux::state::lemma_streams_map_view_insert(pre.remove(id), id, st);
        assert(st@ =~= o.stream);
        assert(streams_map_view(session.streams@) =~= streams0.insert(id, o.stream));
    }
    let bytes = frame.into_bytes();
    push_action(
        dispatched,
        P2pNetworkAction::Noise(
            crate::p2p_network::P2pNetworkNoiseAction::OutgoingData { addr, data: bytes },
        ),
    );
}

// ---------------------------------------------------------------------------
// The reducer
// ---------------------------------------------------------------------------
/// The peer identity a connection's authentication yields, if the
/// handshake has finished.
pub open spec fn spec_peer_of(
    auth: Option<crate::p2p_network::P2pNetworkAuthState>,
) -> Option<crate::PeerId> {
    match auth {
        Some(crate::p2p_network::P2pNetworkAuthState::Noise(n)) => n.peer_id,
        None => None,
    }
}

/// The follow-up actions handling one incoming frame dispatches, given the
/// frame, the stream's post-mutation state, the connection's incoming
/// stream count, the stream limit, the peer, and the frames a window grant
/// released. RST surfaces a stream reset and nothing else; SYN answers
/// with admission (protocol negotiation, or a polite FIN past the limit);
/// Data may refill the receive window and always goes upward; an
/// unsolicited Ping is answered; a negative WindowUpdate surfaces an
/// error, a positive one re-dispatches the released frames.
pub open spec fn spec_frame_effects(
    addr: crate::ConnectionAddr,
    fv: YamuxFrameV,
    window_ours: u32,
    count: int,
    max_streams: Option<usize>,
    peer: crate::PeerId,
    flushed: Seq<YamuxFrameV>,
) -> Seq<P2pNetworkActionV> {
    let id = fv.stream_id;
    {
        let adm = if fv.flags.syn && id != 0 {
            let reject = match max_streams {
                Some(limit) => count > limit,
                None => false,
            };
            if reject {
                seq![
                    P2pNetworkActionV::Yamux(
                        P2pNetworkYamuxActionV::OutgoingFrame {
                            addr,
                            frame: spec_fin_reject_frame(id),
                        },
                    ),
                ]
            } else {
                seq![
                    P2pNetworkActionV::Select(
                        P2pNetworkSelectActionV::Init {
                            addr,
                            kind: SelectKind::Stream(peer, id),
                            incoming: true,
                        },
                    ),
                ]
            }
        } else {
            Seq::<P2pNetworkActionV>::empty()
        };
        let tail = match fv.inner {
            YamuxFrameInnerV::Data(d) => (if window_ours < WINDOW_REFILL_THRESHOLD {
                seq![
                    P2pNetworkActionV::Yamux(
                        P2pNetworkYamuxActionV::OutgoingFrame {
                            addr,
                            frame: spec_refill_frame(id),
                        },
                    ),
                ]
            } else {
                Seq::<P2pNetworkActionV>::empty()
            }) + seq![
                P2pNetworkActionV::Select(
                    P2pNetworkSelectActionV::IncomingData {
                        addr,
                        peer_id: peer,
                        stream_id: id,
                        data: d,
                        fin: fv.flags.fin,
                    },
                ),
            ],
            YamuxFrameInnerV::Ping { opaque } => {
                if !fv.flags.ack {
                    seq![
                        P2pNetworkActionV::Yamux(
                            P2pNetworkYamuxActionV::OutgoingFrame {
                                addr,
                                frame: spec_ping_response_frame(id, opaque),
                            },
                        ),
                    ]
                } else {
                    Seq::<P2pNetworkActionV>::empty()
                }
            },
            YamuxFrameInnerV::WindowUpdate { difference } => {
                if difference < 0 {
                    seq![
                        P2pNetworkActionV::Scheduler(
                            P2pNetworkSchedulerAction::Error {
                                addr,
                                error: P2pNetworkConnectionError::YamuxBadWindowUpdate(id),
                            },
                        ),
                    ]
                } else {
                    spec_outgoing_frame_dispatches(addr, flushed)
                }
            },
            YamuxFrameInnerV::GoAway(_) => Seq::<P2pNetworkActionV>::empty(),
        };
        adm + tail
    }
}

/// Machine limits an action must respect: payload lengths must fit the
/// 4-byte wire length field.
pub open spec fn spec_action_wf(av: P2pNetworkYamuxActionV) -> bool {
    match av {
        P2pNetworkYamuxActionV::OutgoingData { data, .. } => data.len() <= u32::MAX,
        P2pNetworkYamuxActionV::OutgoingFrame { frame, .. } => crate::yamux::frame::frame_wf(
            frame,
        ),
        _ => true,
    }
}

/// What one session action does to the addressed connection's session
/// state and logical streams, and which actions it dispatches, when the
/// session has not terminated: the full transition relation of the Yamux
/// layer.
pub open spec fn spec_reducer_transition(
    s0: P2pNetworkYamuxState,
    c0: P2pNetworkStreams,
    auth: Option<crate::p2p_network::P2pNetworkAuthState>,
    max_streams: Option<usize>,
    time: Timestamp,
    av: P2pNetworkYamuxActionV,
    s1: P2pNetworkYamuxState,
    c1: P2pNetworkStreams,
    added: Seq<P2pNetworkActionV>,
    r: Result<(), YamuxReducerError>,
) -> bool {
    &&& s1.message_size_limit == s0.message_size_limit
    &&& s1.pending_outgoing_limit == s0.pending_outgoing_limit
    &&& match av {
        P2pNetworkYamuxActionV::IncomingData { addr, data } => {
            let b = s0.buffer@ + data;
            let ing = crate::yamux::state::spec_ingest(b, s0.message_size_limit as int);
            &&& s1.buffer@ == b.skip(ing.consumed)
            &&& frames_view(s1.incoming@) == frames_view(s0.incoming@) + ing.frames
            &&& s1.terminated == ing.terminated
            &&& s1.streams == s0.streams
            &&& c1 == c0
            &&& r is Ok
            &&& added == spec_incoming_frame_dispatches(addr, frames_view(s1.incoming@))
        },
        P2pNetworkYamuxActionV::OutgoingData { addr, stream_id, data, flags } => {
            if streams_map_view(s0.streams@).contains_key(stream_id) {
                &&& s1 == s0
                &&& c1 == c0
                &&& r is Ok
                &&& added == seq![
                    P2pNetworkActionV::Yamux(
                        P2pNetworkYamuxActionV::OutgoingFrame {
                            addr,
                            frame: YamuxFrameV {
                                flags: spec_outgoing_data_flags(
                                    streams_map_view(s0.streams@)[stream_id],
                                    flags,
                                ),
                                stream_id,
                                inner: YamuxFrameInnerV::Data(data),
                            },
                        },
                    ),
                ]
            } else {
                &&& s1 == s0
                &&& c1 == c0
                &&& r == Err::<(), YamuxReducerError>(YamuxReducerError::StreamNotFound(stream_id))
                &&& added == Seq::<P2pNetworkActionV>::empty()
            }
        },
        P2pNetworkYamuxActionV::IncomingFrame { addr, frame } => {
            // the queue is the one source of truth: an action whose frame
            // is not the queue's head is dropped whole
            let can = spec_head_matches(s0, frame);
            if !can {
                &&& s1 == s0
                &&& c1 == c0
                &&& r is Ok
                &&& added == Seq::<P2pNetworkActionV>::empty()
            } else {
                let m = spec_apply_incoming_frame(
                    streams_map_view(s0.streams@),
                    c0@,
                    frame,
                    time,
                );
                let under: Seq<P2pNetworkActionV> = if m.underflow {
                    seq![
                        P2pNetworkActionV::Scheduler(
                            P2pNetworkSchedulerAction::Error {
                                addr,
                                error: P2pNetworkConnectionError::YamuxFlowControlViolation(
                                    frame.stream_id,
                                ),
                            },
                        ),
                    ]
                } else {
                    Seq::<P2pNetworkActionV>::empty()
                };
                &&& s1.incoming@ == s0.incoming@.drop_first()
                &&& s1.buffer == s0.buffer
                &&& s1.terminated == m.terminated
                &&& (if !m.streams.contains_key(frame.stream_id) {
                    &&& streams_map_view(s1.streams@) == m.streams
                    &&& c1@ == m.conn_streams
                    &&& r == Err::<(), YamuxReducerError>(
                        YamuxReducerError::StreamNotFound(frame.stream_id),
                    )
                    &&& added == under
                } else {
                    match spec_peer_of(auth) {
                        None => {
                            &&& streams_map_view(s1.streams@) == m.streams
                            &&& c1@ == m.conn_streams
                            &&& r is Ok
                            &&& added == under
                        },
                        Some(peer) => {
                            &&& r is Ok
                            &&& (if frame.flags.rst {
                                // the reset removes the one stream from
                                // both tables and surfaces the peer error
                                &&& streams_map_view(s1.streams@) == m.streams.remove(
                                    frame.stream_id,
                                )
                                &&& c1@ == m.conn_streams.remove(frame.stream_id)
                                &&& added == under + seq![
                                    P2pNetworkActionV::Scheduler(
                                        P2pNetworkSchedulerAction::Error {
                                            addr,
                                            error: P2pNetworkConnectionError::StreamReset(
                                                frame.stream_id,
                                            ),
                                        },
                                    ),
                                ]
                            } else {
                                &&& streams_map_view(s1.streams@) == m.streams
                                &&& c1@ == m.conn_streams
                                &&& added == under + spec_frame_effects(
                                    addr,
                                    frame,
                                    m.streams[frame.stream_id].window_ours,
                                    spec_incoming_stream_count(c1.entries@),
                                    max_streams,
                                    peer,
                                    m.flushed,
                                )
                            })
                        },
                    }
                })
            }
        },
        P2pNetworkYamuxActionV::OutgoingFrame { addr, frame } => {
            if streams_map_view(s0.streams@).contains_key(frame.stream_id) {
                let o = spec_outgoing_frame_step(
                    streams_map_view(s0.streams@)[frame.stream_id],
                    frame,
                    s0.pending_outgoing_limit as int,
                );
                &&& streams_map_view(s1.streams@) == streams_map_view(s0.streams@).insert(
                    frame.stream_id,
                    o.stream,
                )
                &&& c1@ == (if o.fin {
                    c0@.remove(frame.stream_id)
                } else {
                    c0@
                })
                &&& s1.buffer == s0.buffer
                &&& s1.incoming == s0.incoming
                &&& s1.terminated == s0.terminated
                &&& r is Ok
                &&& added == (match o.sent {
                    Some(sf) => seq![
                        P2pNetworkActionV::Noise(
                            P2pNetworkNoiseActionV::OutgoingData {
                                addr,
                                data: spec_encode_frame(sf),
                            },
                        ),
                    ],
                    None => if o.overflow {
                        seq![
                            P2pNetworkActionV::Scheduler(
                                P2pNetworkSchedulerAction::Error {
                                    addr,
                                    error: P2pNetworkConnectionError::YamuxOverflow(
                                        frame.stream_id,
                                    ),
                                },
                            ),
                        ]
                    } else {
                        Seq::<P2pNetworkActionV>::empty()
                    },
                })
            } else {
                &&& s1.streams@ == s0.streams@
                &&& s1.buffer == s0.buffer
                &&& s1.incoming == s0.incoming
                &&& s1.terminated == s0.terminated
                &&& c1 == c0
                &&& r is Ok
                &&& added == Seq::<P2pNetworkActionV>::empty()
            }
        },
        P2pNetworkYamuxActionV::PingStream { addr, ping } => {
            &&& s1 == s0
            &&& c1 == c0
            &&& r is Ok
            &&& added == seq![
                P2pNetworkActionV::Yamux(
                    P2pNetworkYamuxActionV::OutgoingFrame {
                        addr,
                        frame: YamuxFrameV {
                            flags: YamuxFlags {
                                syn: false,
                                ack: ping.response,
                                fin: false,
                                rst: false,
                            },
                            stream_id: ping.stream_id,
                            inner: YamuxFrameInnerV::Ping { opaque: ping.opaque },
                        },
                    },
                ),
            ]
        },
        P2pNetworkYamuxActionV::OpenStream { addr, stream_id, stream_kind } => {
            &&& streams_map_view(s1.streams@) == streams_map_view(s0.streams@).insert(
                stream_id,
                stream_v_default(),
            )
            &&& c1@ == c0@.insert(
                stream_id,
                P2pNetworkStreamState { incoming: false, kind: Some(stream_kind), time },
            )
            &&& s1.buffer == s0.buffer
            &&& s1.incoming == s0.incoming
            &&& s1.terminated == s0.terminated
            &&& r is Ok
            &&& added == (match spec_peer_of(auth) {
                None => Seq::<P2pNetworkActionV>::empty(),
                Some(peer) => seq![
                    P2pNetworkActionV::Select(
                        P2pNetworkSelectActionV::Init {
                            addr,
                            kind: SelectKind::Stream(peer, stream_id),
                            incoming: false,
                        },
                    ),
                ],
            })
        },
    }
}

/// Dispatches the follow-up actions for one handled incoming frame, in
/// the order the transition relation gives them.
#[verifier::rlimit(60)]
fn dispatch_frame_effects(
    dispatched: &mut Vec<P2pNetworkAction>,
    addr: crate::ConnectionAddr,
    frame: YamuxFrame,
    window_ours: u32,
    conn_streams: &P2pNetworkStreams,
    max_streams: Option<usize>,
    peer: crate::PeerId,
    flushed: VecDeque<YamuxFrame>,
)
    ensures
        actions_view(final(dispatched)@) == actions_view(old(dispatched)@) + spec_frame_effects(
            addr,
            frame@,
            window_ours,
            spec_incoming_stream_count(conn_streams.entries@),
            max_streams,
            peer,
            frames_view(flushed@),
        ),
{
    let ghost base = actions_view(old(dispatched)@);
    let ghost fv = frame@;
    let ghost flushed_v = frames_view(flushed@);
    let ghost countv = spec_incoming_stream_count(conn_streams.entries@);
    let ghost expected = spec_frame_effects(
        addr,
        fv,
        window_ours,
        countv,
        max_streams,
        peer,
        flushed_v,
    );
    let fid = frame.stream_id;
    let fflags = frame.flags;
    let ghost adm = if fv.flags.syn && fid != 0 {
        if (match max_streams {
            Some(limit) => countv > limit,
            None => false,
        }) {
            seq![
                P2pNetworkActionV::Yamux(
                    P2pNetworkYamuxActionV::OutgoingFrame {
                        addr,
                        frame: spec_fin_reject_frame(fid),
                    },
                ),
            ]
        } else {
            seq![
                P2pNetworkActionV::Select(
                    P2pNetworkSelectActionV::Init {
                        addr,
                        kind: SelectKind::Stream(peer, fid),
                        incoming: true,
                    },
                ),
            ]
        }
    } else {
        Seq::<P2pNetworkActionV>::empty()
    };
    if fflags.syn && fid != 0 {
        let count = conn_streams.incoming_count();
        let reject = match max_streams {
            Some(limit) => count > limit,
            None => false,
        };
        if reject {
            let reject_frame = YamuxFrame {
                flags: YamuxFlags { syn: false, ack: false, fin: true, rst: false },
                stream_id: fid,
                inner: YamuxFrameInner::Data(Vec::new()),
            };
            proof {
                assert(reject_frame@ =~= spec_fin_reject_frame(fid));
            }
            push_action(
                dispatched,
                P2pNetworkAction::Yamux(
                    P2pNetworkYamuxAction::OutgoingFrame { addr, frame: reject_frame },
                ),
            );
        } else {
            push_action(
                dispatched,
                P2pNetworkAction::Select(
                    crate::p2p_network::P2pNetworkSelectAction::Init {
                        addr,
                        kind: SelectKind::Stream(peer, fid),
                        incoming: true,
                    },
                ),
            );
        }
    }
    proof {
        assert(actions_view(dispatched@) =~= base + adm);
    }
    let ghost mid = actions_view(dispatched@);
    match frame.inner {
        YamuxFrameInner::Data(d) => {
            if window_ours < WINDOW_REFILL_THRESHOLD {
                let refill = YamuxFrame {
                    flags: YamuxFlags { syn: false, ack: false, fin: false, rst: false },
                    stream_id: fid,
                    inner: YamuxFrameInner::WindowUpdate { difference: WINDOW_REFILL_AMOUNT },
                };
                proof {
                    assert(refill@ =~= spec_refill_frame(fid));
                }
                push_action(
                    dispatched,
                    P2pNetworkAction::Yamux(
                        P2pNetworkYamuxAction::OutgoingFrame { addr, frame: refill },
                    ),
                );
            }
            push_action(
                dispatched,
                P2pNetworkAction::Select(
                    crate::p2p_network::P2pNetworkSelectAction::IncomingData {
                        addr,
                        peer_id: peer,
                        stream_id: fid,
                        data: d,
                        fin: fflags.fin,
                    },
                ),
            );
        },
        YamuxFrameInner::Ping { opaque } => {
            if !fflags.ack {
                let pong = YamuxPing { stream_id: fid, opaque, response: true }.into_frame();
                proof {
                    assert(pong@ =~= spec_ping_response_frame(fid, opaque));
                }
                push_action(
                    dispatched,
                    P2pNetworkAction::Yamux(
                        P2pNetworkYamuxAction::OutgoingFrame { addr, frame: pong },
                    ),
                );
            }
        },
        YamuxFrameInner::WindowUpdate { difference } => {
            if difference < 0 {
                push_action(
                    dispatched,
                    P2pNetworkAction::Scheduler(
                        P2pNetworkSchedulerAction::Error {
                            addr,
                            error: P2pNetworkConnectionError::YamuxBadWindowUpdate(fid),
                        },
                    ),
                );
            } else {
                dispatch_flushed(dispatched, addr, flushed);
            }
        },
        YamuxFrameInner::GoAway(_) => {},
    }
    proof {
        assert(actions_view(dispatched@) =~= base + expected);
    }
}

/// Flow-control windows never leave [0, 2^32): applying any signed delta
/// keeps a window in range, a delta more negative than the window has
/// credit saturates at zero instead of going negative, and payload receipt
/// likewise consumes at most the credit that is there.
pub proof fn lemma_window_saturation(w0: u32, difference: i32, len: nat)
    ensures
        0 <= spec_window_after(w0, difference) <= u32::MAX,
        difference < 0 ==> spec_window_after(w0, difference) as int == (if w0 + difference >= 0 {
            w0 + difference
        } else {
            0int
        }),
        ({
            let w1 = if w0 >= len {
                (w0 - len) as u32
            } else {
                0u32
            };
            0 <= w1 <= u32::MAX && w1 as int == (if w0 - len >= 0 {
                w0 - len
            } else {
                0int
            })
        }),
{
}

/// Bytes queued across a stream's pending frames stay within the session's
/// queue limit plus one frame: if the queue held at most `limit` bytes,
/// one outgoing frame leaves at most `limit` plus that frame's own length
/// queued, and whenever the new total exceeds the limit and nothing was
/// sent, the overflow error fires.
pub proof fn lemma_pending_queue_bound(st: YamuxStreamStateV, fv: YamuxFrameV, limit: int)
    requires
        crate::yamux::state::spec_pending_total_v(st.pending) <= limit,
    ensures
        ({
            let o = spec_outgoing_frame_step(st, fv, limit);
            &&& crate::yamux::state::spec_pending_total_v(o.stream.pending) <= limit + frame_v_len(
                fv,
            )
            &&& (o.sent is None ==> o.overflow == (crate::yamux::state::spec_pending_total_v(
                o.stream.pending,
            ) > limit))
        }),
{
    crate::yamux::state::lemma_pending_total_v_nonneg(st.pending);
    let o = spec_outgoing_frame_step(st, fv, limit);
    match fv.inner {
        YamuxFrameInnerV::Data(d) => {
            if d.len() <= st.window_theirs {
            } else if st.window_theirs != 0 && st.pending.len() == 0 {
                let suffix = spec_split_suffix(fv, st.window_theirs as int);
                assert(o.stream.pending =~= seq![suffix]);
                assert(seq![suffix].drop_first() =~= Seq::<YamuxFrameV>::empty());
                assert(crate::yamux::state::spec_pending_total_v(Seq::<YamuxFrameV>::empty())
                    == 0);
                assert(crate::yamux::state::spec_pending_total_v(seq![suffix]) == frame_v_len(
                    suffix,
                ));
                assert(frame_v_len(suffix) <= frame_v_len(fv));
            } else {
                crate::yamux::state::lemma_pending_total_v_push(st.pending, fv);
            }
        },
        _ => {
            crate::yamux::state::lemma_pending_total_v_nonneg(o.stream.pending);
        },
    }
}

/// The whole observable outcome of reducing one session action: the
/// scheduler's limits persist, the dispatch queue only grows at its back,
/// no other connection is touched, the missing-connection and
/// missing-mux errors come exactly when they should, a terminated
/// session swallows the action, and otherwise the addressed connection
/// steps by the Yamux transition relation.
pub open spec fn spec_reducer_outcome(
    pre: P2pNetworkSchedulerState,
    post: P2pNetworkSchedulerState,
    action: P2pNetworkYamuxAction,
    time: Timestamp,
    q0: Seq<P2pNetworkAction>,
    q1: Seq<P2pNetworkAction>,
    r: Result<(), YamuxReducerError>,
) -> bool {
    &&& post.limits == pre.limits
    &&& q0.len() <= q1.len()
    &&& actions_view(q1).take(q0.len() as int) == actions_view(q0)
    &&& ({
        let addr = action.spec_addr();
        let added = actions_view(q1).skip(q0.len() as int);
        let conns0 = pre.connections@;
        let conns1 = post.connections@;
        &&& conns1.dom() == conns0.dom()
        &&& (forall|a2: crate::ConnectionAddr|
            conns0.contains_key(a2) && a2 != addr ==> #[trigger] conns1[a2] == conns0[a2])
        &&& (if !conns0.contains_key(addr) {
            &&& r == Err::<(), YamuxReducerError>(YamuxReducerError::ConnectionNotFound)
            &&& added == Seq::<P2pNetworkActionV>::empty()
        } else {
            let c0 = conns0[addr];
            let c1 = conns1[addr];
            &&& c1.auth == c0.auth
            &&& match c0.mux {
                None => {
                    &&& c1 == c0
                    &&& r == Err::<(), YamuxReducerError>(YamuxReducerError::InvalidMuxState)
                    &&& added == Seq::<P2pNetworkActionV>::empty()
                },
                Some(P2pNetworkConnectionMuxState::Yamux(s0)) => {
                    &&& c1.mux is Some
                    &&& (c1.mux matches Some(P2pNetworkConnectionMuxState::Yamux(s1)) ==> (if
                    s0.terminated is Some {
                        &&& s1 == s0
                        &&& c1.streams == c0.streams
                        &&& r is Ok
                        &&& added == Seq::<P2pNetworkActionV>::empty()
                    } else {
                        spec_reducer_transition(
                            s0,
                            c0.streams,
                            c0.auth,
                            pre.limits.max_streams,
                            time,
                            action@,
                            s1,
                            c1.streams,
                            added,
                            r,
                        )
                    }))
                },
            }
        })
    })
}

impl P2pNetworkYamuxState {
    /// Applies one session action to the connection it addresses. Fails
    /// without touching anything if no connection is registered under the
    /// address or the connection has not negotiated Yamux. A terminated
    /// session accepts every action as a no-op. Otherwise the addressed
    /// connection steps by the Yamux transition relation, every dispatched
    /// follow-up action is appended to `dispatched` in order, and no other
    /// connection is touched.
    #[verifier::rlimit(100)]
    pub fn reducer(
        scheduler: &mut P2pNetworkSchedulerState,
        action: P2pNetworkYamuxAction,
        time: Timestamp,
        dispatched: &mut Vec<P2pNetworkAction>,
    ) -> (r: Result<(), YamuxReducerError>)
        requires
            old(scheduler).wf(),
            spec_action_wf(action@),
            (action@ matches P2pNetworkYamuxActionV::IncomingData { addr, data } ==> (
            old(scheduler).connections@.contains_key(addr) ==> (old(
                scheduler,
            ).connections@[addr].mux matches Some(P2pNetworkConnectionMuxState::Yamux(s))
                ==> s.buffer@.len() + data.len() <= usize::MAX))),
        ensures
            final(scheduler).wf(),
            spec_reducer_outcome(
                *old(scheduler),
                *final(scheduler),
                action,
                time,
                old(dispatched)@,
                final(dispatched)@,
                r,
            ),
    {
        let ghost conns0 = scheduler.connections@;
        let ghost base = actions_view(old(dispatched)@);
        let ghost base_len = old(dispatched)@.len() as int;
        let max_streams = scheduler.limits.max_streams;
        let addr = *action.addr();
        let mut conn = match scheduler.connections.remove(&addr) {
            None => {
                proof {
                    assert(scheduler.connections@ =~= conns0);
                    assert(scheduler.connections@.dom() =~= conns0.dom());
                    assert(actions_view(dispatched@).skip(base_len)
                        =~= Seq::<P2pNetworkActionV>::empty());
                    assert(actions_view(dispatched@).take(base_len) =~= base);
                }
                return Err(YamuxReducerError::ConnectionNotFound);
            },
            Some(c) => c,
        };
        let mut session = match conn.mux {
            None => {
                conn.mux = None;
                scheduler.connections.insert(addr, conn);
                proof {
                    assert(scheduler.connections@ =~= conns0);
                    assert(scheduler.connections@.dom() =~= conns0.dom());
                    assert(actions_view(dispatched@).skip(base_len)
                        =~= Seq::<P2pNetworkActionV>::empty());
                    assert(actions_view(dispatched@).take(base_len) =~= base);
                }
                return Err(YamuxReducerError::InvalidMuxState);
            },
            Some(P2pNetworkConnectionMuxState::Yamux(s)) => s,
        };
        let ghost s0 = session;
        let ghost c0s = conn.streams;
        if session.terminated.is_some() {
            conn.mux = Some(P2pNetworkConnectionMuxState::Yamux(session));
            scheduler.connections.insert(addr, conn);
            proof {
                assert(scheduler.connections@ =~= conns0);
                assert(scheduler.connections@.dom() =~= conns0.dom());
                assert(actions_view(dispatched@).skip(base_len)
                    =~= Seq::<P2pNetworkActionV>::empty());
                assert(actions_view(dispatched@).take(base_len) =~= base);
            }
            return Ok(());
        }
        let ghost av = action@;
        let ghost auth0 = conn.auth;
        let result: Result<(), YamuxReducerError> = match action {
            P2pNetworkYamuxAction::IncomingData { addr: _a, data } => {
                session.ingest_bytes(&data);
                dispatch_incoming(dispatched, addr, &session.incoming);
                proof {
                    assert(actions_view(dispatched@).skip(base_len)
                        =~= spec_incoming_frame_dispatches(addr, frames_view(session.incoming@)));
                    assert(spec_reducer_transition(s0, c0s, auth0, max_streams, time, av, session,
                        conn.streams, actions_view(dispatched@).skip(base_len),
                        Ok::<(), YamuxReducerError>(())));
                }
                Ok(())
            },
            P2pNetworkYamuxAction::OutgoingData { addr: _a, stream_id, data, flags } => {
                let found: Option<(bool, bool, bool)> = match session.streams.get(&stream_id) {
                    Some(st) => Some((st.incoming, st.established, st.syn_sent)),
                    None => None,
                };
                match found {
                    None => {
                        proof {
                            assert(actions_view(dispatched@).skip(base_len)
                                =~= Seq::<P2pNetworkActionV>::empty());
                            assert(spec_reducer_transition(s0, c0s, auth0, max_streams, time, av,
                                session, conn.streams, actions_view(dispatched@).skip(base_len),
                                Err::<(), YamuxReducerError>(
                                    YamuxReducerError::StreamNotFound(stream_id),
                                )));
                        }
                        Err(YamuxReducerError::StreamNotFound(stream_id))
                    },
                    Some((s_incoming, s_established, s_syn_sent)) => {
                        let mut flags = flags;
                        if !s_incoming && !s_established && !s_syn_sent {
                            flags.syn = true;
                        } else if s_incoming && !s_established {
                            flags.ack = true;
                        }
                        let out_frame = YamuxFrame {
                            flags,
                            stream_id,
                            inner: YamuxFrameInner::Data(data),
                        };
                        let ghost ofv = out_frame@;
                        push_action(
                            dispatched,
                            P2pNetworkAction::Yamux(
                                P2pNetworkYamuxAction::OutgoingFrame { addr, frame: out_frame },
                            ),
                        );
                        proof {
                            assert(actions_view(dispatched@).skip(base_len) =~= seq![
                                P2pNetworkActionV::Yamux(
                                    P2pNetworkYamuxActionV::OutgoingFrame { addr, frame: ofv },
                                ),
                            ]);
                            assert(spec_reducer_transition(s0, c0s, auth0, max_streams, time, av,
                                session, conn.streams, actions_view(dispatched@).skip(base_len),
                                Ok::<(), YamuxReducerError>(())));
                        }
                        Ok(())
                    },
                }
            },
            P2pNetworkYamuxAction::IncomingFrame { addr: _a, frame } => {
                let (flushed, processed, underflow) = apply_incoming_frame(
                    &mut session,
                    &mut conn.streams,
                    &frame,
                    time,
                );
                if !processed {
                    proof {
                        assert(actions_view(dispatched@).skip(base_len)
                            =~= Seq::<P2pNetworkActionV>::empty());
                        assert(spec_reducer_transition(s0, c0s, auth0, max_streams, time, av,
                            session, conn.streams, actions_view(dispatched@).skip(base_len),
                            Ok::<(), YamuxReducerError>(())));
                    }
                    Ok(())
                } else {
                    let fid = frame.stream_id;
                    let ghost under_seq: Seq<P2pNetworkActionV> = if underflow {
                        seq![
                            P2pNetworkActionV::Scheduler(
                                P2pNetworkSchedulerAction::Error {
                                    addr,
                                    error: P2pNetworkConnectionError::YamuxFlowControlViolation(
                                        fid,
                                    ),
                                },
                            ),
                        ]
                    } else {
                        Seq::<P2pNetworkActionV>::empty()
                    };
                    if underflow {
                        push_action(
                            dispatched,
                            P2pNetworkAction::Scheduler(
                                P2pNetworkSchedulerAction::Error {
                                    addr,
                                    error: P2pNetworkConnectionError::YamuxFlowControlViolation(
                                        fid,
                                    ),
                                },
                            ),
                        );
                    }
                    proof {
                        assert(actions_view(dispatched@).skip(base_len) =~= under_seq);
                    }
                    let window_ours_opt: Option<u32> = match session.streams.get(&fid) {
                        Some(st) => Some(st.window_ours),
                        None => None,
                    };
                    match window_ours_opt {
                        None => {
                            proof {
                                assert(spec_reducer_transition(s0, c0s, auth0, max_streams, time,
                                    av, session, conn.streams,
                                    actions_view(dispatched@).skip(base_len),
                                    Err::<(), YamuxReducerError>(
                                        YamuxReducerError::StreamNotFound(fid),
                                    )));
                            }
                            Err(YamuxReducerError::StreamNotFound(fid))
                        },
                        Some(window_ours) => {
                            let peer_opt: Option<crate::PeerId> = match &conn.auth {
                                Some(crate::p2p_network::P2pNetworkAuthState::Noise(n)) => {
                                    n.peer_id
                                },
                                None => None,
                            };
                            match peer_opt {
                                None => {
                                    proof {
                                        assert(spec_reducer_transition(s0, c0s, auth0,
                                            max_streams, time, av, session, conn.streams,
                                            actions_view(dispatched@).skip(base_len),
                                            Ok::<(), YamuxReducerError>(())));
                                    }
                                    Ok(())
                                },
                                Some(peer) => {
                                    if frame.flags.rst {
                                        let ghost pre = session.streams@;
                                        session.streams.remove(&fid);
                                        proof {
                                            crate::yamux::state::lemma_streams_map_view_remove(
                                                pre,
                                                fid,
                                            );
                                        }
                                        conn.streams.remove(fid);
                                        push_action(
                                            dispatched,
                                            P2pNetworkAction::Scheduler(
                                                P2pNetworkSchedulerAction::Error {
                                                    addr,
                                                    error: P2pNetworkConnectionError::StreamReset(
                                                        fid,
                                                    ),
                                                },
                                            ),
                                        );
                                        proof {
                                            assert(actions_view(dispatched@).skip(base_len)
                                                =~= under_seq + seq![
                                                P2pNetworkActionV::Scheduler(
                                                    P2pNetworkSchedulerAction::Error {
                                                        addr,
                                                        error: P2pNetworkConnectionError::StreamReset(
                                                            fid,
                                                        ),
                                                    },
                                                ),
                                            ]);
                                            assert(spec_reducer_transition(s0, c0s, auth0,
                                                max_streams, time, av, session, conn.streams,
                                                actions_view(dispatched@).skip(base_len),
                                                Ok::<(), YamuxReducerError>(())));
                                        }
                                    } else {
                                        let ghost flushed_v = frames_view(flushed@);
                                        dispatch_frame_effects(
                                            dispatched,
                                            addr,
                                            frame,
                                            window_ours,
                                            &conn.streams,
                                            max_streams,
                                            peer,
                                            flushed,
                                        );
                                        proof {
                                            assert(actions_view(dispatched@).skip(base_len)
                                                =~= under_seq + spec_frame_effects(
                                                addr,
                                                av->IncomingFrame_frame,
                                                window_ours,
                                                spec_incoming_stream_count(
                                                    conn.streams.entries@,
                                                ),
                                                max_streams,
                                                peer,
                                                flushed_v,
                                            ));
                                            assert(spec_reducer_transition(s0, c0s, auth0,
                                                max_streams, time, av, session, conn.streams,
                                                actions_view(dispatched@).skip(base_len),
                                                Ok::<(), YamuxReducerError>(())));
                                        }
                                    }
                                    Ok(())
                                },
                            }
                        },
                    }
                }
            },
            P2pNetworkYamuxAction::OutgoingFrame { addr: _a, frame } => {
                apply_outgoing_frame(&mut session, &mut conn.streams, addr, frame, dispatched);
                proof {
                    let fv = av->OutgoingFrame_frame;
                    if streams_map_view(s0.streams@).contains_key(fv.stream_id) {
                        let o = spec_outgoing_frame_step(
                            streams_map_view(s0.streams@)[fv.stream_id],
                            fv,
                            s0.pending_outgoing_limit as int,
                        );
                        match o.sent {
                            Some(sf) => {
                                assert(actions_view(dispatched@).skip(base_len) =~= seq![
                                    P2pNetworkActionV::Noise(
                                        P2pNetworkNoiseActionV::OutgoingData {
                                            addr,
                                            data: spec_encode_frame(sf),
                                        },
                                    ),
                                ]);
                            },
                            None => {
                                if o.overflow {
                                    assert(actions_view(dispatched@).skip(base_len) =~= seq![
                                        P2pNetworkActionV::Scheduler(
                                            P2pNetworkSchedulerAction::Error {
                                                addr,
                                                error: P2pNetworkConnectionError::YamuxOverflow(
                                                    fv.stream_id,
                                                ),
                                            },
                                        ),
                                    ]);
                                } else {
                                    assert(actions_view(dispatched@).skip(base_len)
                                        =~= Seq::<P2pNetworkActionV>::empty());
                                }
                            },
                        }
                    } else {
                        assert(actions_view(dispatched@).skip(base_len)
                            =~= Seq::<P2pNetworkActionV>::empty());
                    }
                    assert(spec_reducer_transition(s0, c0s, auth0, max_streams, time, av, session,
                        conn.streams, actions_view(dispatched@).skip(base_len),
                        Ok::<(), YamuxReducerError>(())));
                }
                Ok(())
            },
            P2pNetworkYamuxAction::PingStream { addr: _a, ping } => {
                let pf = ping.into_frame();
                let ghost pfv = pf@;
                push_action(
                    dispatched,
                    P2pNetworkAction::Yamux(
                        P2pNetworkYamuxAction::OutgoingFrame { addr, frame: pf },
                    ),
                );
                proof {
                    assert(pfv =~= (YamuxFrameV {
                        flags: YamuxFlags {
                            syn: false,
                            ack: ping.response,
                            fin: false,
                            rst: false,
                        },
                        stream_id: ping.stream_id,
                        inner: YamuxFrameInnerV::Ping { opaque: ping.opaque },
                    }));
                    assert(actions_view(dispatched@).skip(base_len) =~= seq![
                        P2pNetworkActionV::Yamux(
                            P2pNetworkYamuxActionV::OutgoingFrame { addr, frame: pfv },
                        ),
                    ]);
                    assert(spec_reducer_transition(s0, c0s, auth0, max_streams, time, av, session,
                        conn.streams, actions_view(dispatched@).skip(base_len),
                        Ok::<(), YamuxReducerError>(())));
                }
                Ok(())
            },
            P2pNetworkYamuxAction::OpenStream { addr: _a, stream_id, stream_kind } => {
                let ghost pre = session.streams@;
                let fresh = YamuxStreamState::default();
                session.streams.insert(stream_id, fresh);
                proof {
                    crate::yamux::state::lemma_streams_map_view_insert(pre, stream_id, fresh);
                    assert(fresh@ =~= stream_v_default());
                }
                conn.streams.insert(
                    stream_id,
                    P2pNetworkStreamState::new(stream_kind, time),
                );
                let peer_opt: Option<crate::PeerId> = match &conn.auth {
                    Some(crate::p2p_network::P2pNetworkAuthState::Noise(n)) => n.peer_id,
                    None => None,
                };
                match peer_opt {
                    None => {
                        proof {
                            assert(actions_view(dispatched@).skip(base_len)
                                =~= Seq::<P2pNetworkActionV>::empty());
                        }
                    },
                    Some(peer) => {
                        push_action(
                            dispatched,
                            P2pNetworkAction::Select(
                                crate::p2p_network::P2pNetworkSelectAction::Init {
                                    addr,
                                    kind: SelectKind::Stream(peer, stream_id),
                                    incoming: false,
                                },
                            ),
                        );
                        proof {
                            assert(actions_view(dispatched@).skip(base_len) =~= seq![
                                P2pNetworkActionV::Select(
                                    P2pNetworkSelectActionV::Init {
                                        addr,
                                        kind: SelectKind::Stream(peer, stream_id),
                                        incoming: false,
                                    },
                                ),
                            ]);
                        }
                    },
                }
                proof {
                    assert(spec_reducer_transition(s0, c0s, auth0, max_streams, time, av, session,
                        conn.streams, actions_view(dispatched@).skip(base_len),
                        Ok::<(), YamuxReducerError>(())));
                }
                Ok(())
            },
        };
        proof {
            assert(spec_reducer_transition(
                s0,
                c0s,
                auth0,
                max_streams,
                time,
                av,
                session,
                conn.streams,
                actions_view(dispatched@).skip(base_len),
                result,
            ));
        }
        conn.mux = Some(P2pNetworkConnectionMuxState::Yamux(session));
        scheduler.connections.insert(addr, conn);
        proof {
            assert(scheduler.connections@.dom() =~= conns0.dom());
            assert(actions_view(dispatched@).take(base_len) =~= base);
        }
        result
    }
}

} // verus!
