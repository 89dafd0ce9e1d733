//! Connection-level p2p state: the scheduler's table of connections, the
//! per-connection record (authentication, negotiated multiplexer, logical
//! streams), and the actions the network layer exchanges with its
//! neighbours (select, noise, scheduler errors).

use std::collections::BTreeMap;
use vstd::prelude::*;

use crate::yamux::actions::{P2pNetworkYamuxAction, P2pNetworkYamuxActionV};
use crate::yamux::frame::StreamId;
use crate::yamux::state::P2pNetworkYamuxState;
use crate::{ConnectionAddr, Data, PeerId, Timestamp};

verus! {

broadcast use vstd::std_specs::btree::group_btree_axioms, vstd::laws_cmp::group_laws_cmp;

/// Application protocol selected on a logical stream.
#[derive(Clone, Copy, Debug, PartialEq, Eq, Structural)]
pub enum StreamKind {
    Identify,
    Kademlia,
    Broadcast,
    Rpc,
}

/// What a protocol-select negotiation is for: a whole-connection stage or
/// one logical stream of an authenticated peer.
#[derive(Clone, Copy, Debug, PartialEq, Eq, Structural)]
pub enum SelectKind {
    Authentication,
    Multiplexing,
    Stream(PeerId, StreamId),
}

/// Connection-level failures that the scheduler answers by disconnecting
/// the peer.
#[derive(Clone, Copy, Debug, PartialEq, Eq, Structural)]
pub enum P2pNetworkConnectionError {
    /// The remote aborted one stream.
    StreamReset(StreamId),
    /// The remote sent a negative window delta.
    YamuxBadWindowUpdate(StreamId),
    /// The bytes queued for sending outgrew the session's limit.
    YamuxOverflow(StreamId),
    /// The remote sent more payload than the receive window had granted.
    YamuxFlowControlViolation(StreamId),
}

/// Action of the connection scheduler that the session layer dispatches.
#[derive(Clone, Copy, Debug, PartialEq, Eq, Structural)]
pub enum P2pNetworkSchedulerAction {
    Error { addr: ConnectionAddr, error: P2pNetworkConnectionError },
}

/// Protocol-select actions the session layer dispatches upward.
#[derive(Debug)]
pub enum P2pNetworkSelectAction {
    /// Begin protocol negotiation on a stream.
    Init { addr: ConnectionAddr, kind: SelectKind, incoming: bool },
    /// Deliver stream payload upward, with the half-close flag.
    IncomingData {
        addr: ConnectionAddr,
        peer_id: PeerId,
        stream_id: StreamId,
        data: Data,
        fin: bool,
    },
}

/// Actions handed down to the encryption layer.
#[derive(Debug)]
pub enum P2pNetworkNoiseAction {
    /// Encrypt and send these bytes.
    OutgoingData { addr: ConnectionAddr, data: Data },
}

/// Noise handshake outcome for a connection: the peer's stable identity
/// once the handshake finished.
#[derive(Clone, Copy, Debug, PartialEq, Eq, Structural)]
pub struct P2pNetworkNoiseState {
    pub peer_id: Option<PeerId>,
}

impl P2pNetworkNoiseState {
    pub fn peer_id(&self) -> (r: Option<PeerId>)
        ensures
            r == self.peer_id,
    {
        self.peer_id
    }
}

/// Authentication state of a connection.
#[derive(Clone, Copy, Debug, PartialEq, Eq, Structural)]
pub enum P2pNetworkAuthState {
    Noise(P2pNetworkNoiseState),
}

/// Negotiated multiplexer of a connection.
#[derive(Debug)]
pub enum P2pNetworkConnectionMuxState {
    Yamux(P2pNetworkYamuxState),
}

/// Logical-stream record kept by the connection, beside the Yamux-level
/// stream state.
#[derive(Clone, Copy, Debug, PartialEq, Eq, Structural)]
pub struct P2pNetworkStreamState {
    /// True if the remote side opened the stream.
    pub incoming: bool,
    /// Protocol selected on the stream, if already chosen at creation.
    pub kind: Option<StreamKind>,
    /// When the stream record was created.
    pub time: Timestamp,
}

impl P2pNetworkStreamState {
    pub fn new(kind: StreamKind, time: Timestamp) -> (r: P2pNetworkStreamState)
        ensures
            r == (P2pNetworkStreamState { incoming: false, kind: Some(kind), time }),
    {
        P2pNetworkStreamState { incoming: false, kind: Some(kind), time }
    }

    pub fn new_incoming(time: Timestamp) -> (r: P2pNetworkStreamState)
        ensures
            r == (P2pNetworkStreamState { incoming: true, kind: None, time }),
    {
        P2pNetworkStreamState { incoming: true, kind: None, time }
    }
}

/// Table of the connection's logical streams, keyed by stream id, keys
/// unique.
#[derive(Debug)]
pub struct P2pNetworkStreams {
    pub entries: Vec<(StreamId, P2pNetworkStreamState)>,
}

/// The mapping an entry list denotes; later entries win, though a
/// well-formed table has no duplicate keys.
pub open spec fn spec_streams_map(entries: Seq<(StreamId, P2pNetworkStreamState)>) -> Map<
    StreamId,
    P2pNetworkStreamState,
>
    decreases entries.len(),
{
    if entries.len() == 0 {
        Map::empty()
    } else {
        spec_streams_map(entries.drop_last()).insert(entries.last().0, entries.last().1)
    }
}

/// How many table entries record a remotely opened stream.
pub open spec fn spec_incoming_stream_count(entries: Seq<(StreamId, P2pNetworkStreamState)>) -> int
    decreases entries.len(),
{
    if entries.len() == 0 {
        0
    } else {
        spec_incoming_stream_count(entries.drop_last()) + (if entries.last().1.incoming {
            1int
        } else {
            0int
        })
    }
}

impl View for P2pNetworkStreams {
    type V = Map<StreamId, P2pNetworkStreamState>;

    open spec fn view(&self) -> Map<StreamId, P2pNetworkStreamState> {
        spec_streams_map(self.entries@)
    }
}

impl P2pNetworkStreams {
    /// No stream id occurs twice.
    pub open spec fn wf(&self) -> bool {
        forall|i: int, j: int|
            0 <= i < j < self.entries@.len() ==> (#[trigger] self.entries@[i]).0 != (
            #[trigger] self.entries@[j]).0
    }

    pub fn new() -> (r: P2pNetworkStreams)
        ensures
            r@ == Map::<StreamId, P2pNetworkStreamState>::empty(),
            r.wf(),
            r.entries@.len() == 0,
    {
        P2pNetworkStreams { entries: Vec::new() }
    }

    /// Adds or replaces the record for a stream id.
    pub fn insert(&mut self, stream_id: StreamId, state: P2pNetworkStreamState)
        requires
            old(self).wf(),
        ensures
            final(self).wf(),
            final(self)@ == old(self)@.insert(stream_id, state),
            final(self).entries@.len() <= old(self).entries@.len() + 1,
    {
        self.remove(stream_id);
        let ghost pre = self.entries@;
        self.entries.push((stream_id, state));
        proof {
            assert(self.entries@.drop_last() =~= pre);
            lemma_streams_map_not_contains(pre, stream_id);
            assert(spec_streams_map(pre).insert(stream_id, state) =~= old(self)@.insert(
                stream_id,
                state,
            ));
        }
    }

    /// Drops the record for a stream id, if present.
    pub fn remove(&mut self, stream_id: StreamId)
        requires
            old(self).wf(),
        ensures
            final(self).wf(),
            final(self)@ == old(self)@.remove(stream_id),
            final(self).entries@.len() <= old(self).entries@.len(),
            forall|i: int|
                0 <= i < final(self).entries@.len() ==> (#[trigger] final(self).entries@[i]).0
                    != stream_id,
    {
        let mut i: usize = 0;
        let n = self.entries.len();
        while i < n
            invariant
                i <= n,
                n == self.entries@.len(),
                old(self).wf(),
                self == old(self),
                forall|j: int| 0 <= j < i ==> (#[trigger] self.entries@[j]).0 != stream_id,
            decreases n - i,
        {
            if self.entries[i].0 == stream_id {
                let ghost pre = self.entries@;
                self.entries.remove(i);
                proof {
                    lemma_streams_map_remove_at(pre, i as int);
                    assert(spec_streams_map(self.entries@) =~= spec_streams_map(pre).remove(
                        stream_id,
                    ));
                }
                return ;
            }
            i = i + 1;
        }
        proof {
            lemma_streams_map_not_contains(self.entries@, stream_id);
            assert(self@.remove(stream_id) =~= self@);
        }
    }

    /// How many streams in the table the remote opened.
    pub fn incoming_count(&self) -> (r: usize)
        ensures
            r == spec_incoming_stream_count(self.entries@),
    {
        let mut count: usize = 0;
        let mut i: usize = 0;
        let n = self.entries.len();
        while i < n
            invariant
                i <= n,
                n == self.entries@.len(),
                count == spec_incoming_stream_count(self.entries@.take(i as int)),
                count <= i,
            decreases n - i,
        {
            proof {
                assert(self.entries@.take(i + 1).drop_last() =~= self.entries@.take(i as int));
                assert(self.entries@.take(i + 1).last() == self.entries@[i as int]);
            }
            if self.entries[i].1.incoming {
                count = count + 1;
            }
            i = i + 1;
        }
        proof {
            assert(self.entries@.take(n as int) =~= self.entries@);
        }
        count
    }
}

/// In a table whose visible entries all avoid `id`, the denoted map does
/// not contain `id`.
pub proof fn lemma_streams_map_not_contains(
    entries: Seq<(StreamId, P2pNetworkStreamState)>,
    id: StreamId,
)
    requires
        forall|i: int| 0 <= i < entries.len() ==> (#[trigger] entries[i]).0 != id,
    ensures
        !spec_streams_map(entries).contains_key(id),
    decreases entries.len(),
{
    if entries.len() > 0 {
        lemma_streams_map_not_contains(entries.drop_last(), id);
    }
}

/// Removing the single entry holding a key takes that key out of the
/// denoted map, provided keys are unique.
pub proof fn lemma_streams_map_remove_at(entries: Seq<(StreamId, P2pNetworkStreamState)>, k: int)
    requires
        0 <= k < entries.len(),
        forall|i: int, j: int|
            0 <= i < j < entries.len() ==> (#[trigger] entries[i]).0 != (#[trigger] entries[j]).0,
    ensures
        spec_streams_map(entries.remove(k)) =~= spec_streams_map(entries).remove(entries[k].0),
    decreases entries.len(),
{
    let id = entries[k].0;
    if entries.len() == 0 {
    } else if k == entries.len() - 1 {
        assert(entries.remove(k) =~= entries.drop_last());
        lemma_streams_map_not_contains_prefix(entries, k);
    } else {
        lemma_streams_map_remove_at(entries.drop_last(), k);
        assert(entries.remove(k).drop_last() =~= entries.drop_last().remove(k));
        assert(entries.remove(k).last() == entries.last());
        assert(spec_streams_map(entries.remove(k)) =~= spec_streams_map(
            entries.drop_last().remove(k),
        ).insert(entries.last().0, entries.last().1));
        assert(entries.last().0 != id);
        assert(spec_streams_map(entries).remove(id) =~= spec_streams_map(
            entries.drop_last(),
        ).remove(id).insert(entries.last().0, entries.last().1));
    }
}

/// If the entries before position `k` all avoid the key at `k`, the map of
/// the prefix up to `k` does not contain it.
pub proof fn lemma_streams_map_not_contains_prefix(
    entries: Seq<(StreamId, P2pNetworkStreamState)>,
    k: int,
)
    requires
        0 <= k < entries.len(),
        forall|i: int, j: int|
            0 <= i < j < entries.len() ==> (#[trigger] entries[i]).0 != (#[trigger] entries[j]).0,
    ensures
        !spec_streams_map(entries.take(k)).contains_key(entries[k].0),
{
    assert forall|i: int| 0 <= i < entries.take(k).len() implies (#[trigger] entries.take(
        k,
    )[i]).0 != entries[k].0 by {
        assert(entries.take(k)[i] == entries[i]);
    }
    lemma_streams_map_not_contains(entries.take(k), entries[k].0);
    assert(entries.take(k) =~= entries.drop_last().take(k)) by {
        assert(k <= entries.len() - 1);
    }
}

/// Resource ceilings the p2p layer enforces; `None` means unlimited.
#[derive(Clone, Copy, Debug, PartialEq, Eq, Structural)]
pub struct P2pLimits {
    /// Most incoming streams admitted per connection before new ones are
    /// politely rejected.
    pub max_streams: Option<usize>,
}

/// Per-connection record: authentication result, negotiated multiplexer,
/// and the connection's logical streams.
#[derive(Debug)]
pub struct P2pNetworkConnectionState {
    pub auth: Option<P2pNetworkAuthState>,
    pub mux: Option<P2pNetworkConnectionMuxState>,
    pub streams: P2pNetworkStreams,
}

/// The scheduler's table of live connections, with the limits it enforces.
#[derive(Debug)]
pub struct P2pNetworkSchedulerState {
    pub connections: BTreeMap<ConnectionAddr, P2pNetworkConnectionState>,
    pub limits: P2pLimits,
}

impl P2pNetworkSchedulerState {
    /// Every connection's stream table has unique keys.
    pub open spec fn wf(&self) -> bool {
        forall|a: ConnectionAddr|
            self.connections@.contains_key(a) ==> (#[trigger] self.connections@[a]).streams.wf()
    }
}

/// Any action the network layer dispatches while reducing a session
/// action: follow-up session work, scheduler errors, protocol-select
/// requests, or bytes for the encryption layer.
#[derive(Debug)]
pub enum P2pNetworkAction {
    Scheduler(P2pNetworkSchedulerAction),
    Select(P2pNetworkSelectAction),
    Noise(P2pNetworkNoiseAction),
    Yamux(P2pNetworkYamuxAction),
}

/// Mathematical model of a select action.
#[verifier::ext_equal]
pub enum P2pNetworkSelectActionV {
    Init { addr: ConnectionAddr, kind: SelectKind, incoming: bool },
    IncomingData {
        addr: ConnectionAddr,
        peer_id: PeerId,
        stream_id: StreamId,
        data: Seq<u8>,
        fin: bool,
    },
}

impl View for P2pNetworkSelectAction {
    type V = P2pNetworkSelectActionV;

    open spec fn view(&self) -> P2pNetworkSelectActionV {
        match self {
            P2pNetworkSelectAction::Init { addr, kind, incoming } => {
                P2pNetworkSelectActionV::Init { addr: *addr, kind: *kind, incoming: *incoming }
            },
            P2pNetworkSelectAction::IncomingData { addr, peer_id, stream_id, data, fin } => {
                P2pNetworkSelectActionV::IncomingData {
                    addr: *addr,
                    peer_id: *peer_id,
                    stream_id: *stream_id,
                    data: data@,
                    fin: *fin,
                }
            },
        }
    }
}

/// Mathematical model of a noise action.
#[verifier::ext_equal]
pub enum P2pNetworkNoiseActionV {
    OutgoingData { addr: ConnectionAddr, data: Seq<u8> },
}

impl View for P2pNetworkNoiseAction {
    type V = P2pNetworkNoiseActionV;

    open spec fn view(&self) -> P2pNetworkNoiseActionV {
        match self {
            P2pNetworkNoiseAction::OutgoingData { addr, data } => {
                P2pNetworkNoiseActionV::OutgoingData { addr: *addr, data: data@ }
            },
        }
    }
}

/// Mathematical model of a dispatched network action.
#[verifier::ext_equal]
pub enum P2pNetworkActionV {
    Scheduler(P2pNetworkSchedulerAction),
    Select(P2pNetworkSelectActionV),
    Noise(P2pNetworkNoiseActionV),
    Yamux(P2pNetworkYamuxActionV),
}

impl View for P2pNetworkAction {
    type V = P2pNetworkActionV;

    open spec fn view(&self) -> P2pNetworkActionV {
        match self {
            P2pNetworkAction::Scheduler(a) => P2pNetworkActionV::Scheduler(*a),
            P2pNetworkAction::Select(a) => P2pNetworkActionV::Select(a@),
            P2pNetworkAction::Noise(a) => P2pNetworkActionV::Noise(a@),
            P2pNetworkAction::Yamux(a) => P2pNetworkActionV::Yamux(a@),
        }
    }
}

/// The models of a dispatch queue.
pub open spec fn actions_view(s: Seq<P2pNetworkAction>) -> Seq<P2pNetworkActionV> {
    s.map_values(|a: P2pNetworkAction| a@)
}

impl P2pNetworkAction {
    /// Routes one network action: session actions reduce against the
    /// scheduler state here; scheduler, select and noise actions belong
    /// to their own subsystems and travel outward untouched.
    pub fn effects(
        self,
        scheduler: &mut P2pNetworkSchedulerState,
        time: crate::Timestamp,
        dispatched: &mut Vec<P2pNetworkAction>,
        outward: &mut Vec<P2pNetworkAction>,
    ) -> (r: Result<(), crate::yamux::reducer::YamuxReducerError>)
        requires
            old(scheduler).wf(),
            self matches P2pNetworkAction::Yamux(a) ==> crate::yamux::reducer::spec_action_wf(a@),
            (self matches P2pNetworkAction::Yamux(a) ==> (a@
                matches crate::yamux::actions::P2pNetworkYamuxActionV::IncomingData {
                addr,
                data,
            } ==> (old(scheduler).connections@.contains_key(addr) ==> (old(
                scheduler,
            ).connections@[addr].mux matches Some(P2pNetworkConnectionMuxState::Yamux(s)) ==> s.buffer@.len()
                + data.len() <= usize::MAX)))),
        ensures
            final(scheduler).wf(),
            final(scheduler).limits == old(scheduler).limits,
            !(self is Yamux) ==> {
                &&& *final(scheduler) == *old(scheduler)
                &&& final(dispatched)@ == old(dispatched)@
                &&& final(outward)@ == old(outward)@ + seq![self]
                &&& r is Ok
            },
            self is Yamux ==> final(outward)@ == old(outward)@,
            (self matches P2pNetworkAction::Yamux(a)
                ==> crate::yamux::reducer::spec_reducer_outcome(
                *old(scheduler),
                *final(scheduler),
                a,
                time,
                old(dispatched)@,
                final(dispatched)@,
                r,
            )),
    {
        match self {
            P2pNetworkAction::Yamux(a) => {
                P2pNetworkYamuxState::reducer(scheduler, a, time, dispatched)
            },
            other => {
                let ghost pre = outward@;
                let ghost ov = other;
                outward.push(other);
                proof {
                    assert(outward@ =~= pre + seq![ov]);
                }
                Ok(())
            },
        }
    }
}

} // verus!
