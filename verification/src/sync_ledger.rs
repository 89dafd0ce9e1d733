//! The ledger-sync peer-query coordinator: a phased state machine that
//! fans ledger-tree queries out across ready peers, absorbs their
//! responses, and advances phase by phase to a synchronized ledger.

use vstd::prelude::*;

use crate::ledger::{spec_next_addr, LedgerAddress, LEDGER_DEPTH};
use crate::p2p::{MinaLedgerSyncLedgerQuery, P2pChannelsRpcRequestSendAction, P2pRpcRequest};
use crate::state::{spec_sync_ledger_enabled, Action, State};
use crate::transition_frontier::TransitionFrontierAction;
use crate::transition_frontier::TransitionFrontierSyncState;
use crate::{P2pRpcId, PeerId, Timestamp};

verus! {

/// Progress of one peer's attempt at one ledger query.
#[derive(Clone, Copy, Debug, PartialEq, Eq, Structural)]
pub enum PeerRpcState {
    /// The attempt was created but the request has not gone out.
    Init { time: Timestamp },
    /// The request is on the wire under this RPC id.
    Pending { time: Timestamp, rpc_id: P2pRpcId },
    /// The attempt failed; the address stays pending and may be retried
    /// against another peer.
    Error { time: Timestamp, rpc_id: P2pRpcId },
    /// The response was received and applied.
    Success { time: Timestamp },
}

/// What a peer answered a ledger query with: the two child hashes of an
/// inner node, or the accounts under a subtree near the leaves.
#[derive(Clone, Debug, PartialEq)]
pub enum PeerLedgerQueryResponse {
    ChildHashes(u64, u64),
    Accounts(Vec<u64>),
}

/// Attempts on one pending address, by peer; peers unique.
#[derive(Clone, Debug, PartialEq)]
pub struct LedgerQueryPending {
    pub attempts: Vec<(PeerId, PeerRpcState)>,
}

/// The attempt a peer has on record in an attempt list: the last entry
/// wins, though a well-formed list has no duplicate peers.
pub open spec fn spec_attempt_of(s: Seq<(PeerId, PeerRpcState)>, peer: PeerId) -> Option<
    PeerRpcState,
>
    decreases s.len(),
{
    if s.len() == 0 {
        None
    } else if s.last().0 == peer {
        Some(s.last().1)
    } else {
        spec_attempt_of(s.drop_last(), peer)
    }
}

/// No peer occurs twice in an attempt list.
pub open spec fn spec_attempts_wf(s: Seq<(PeerId, PeerRpcState)>) -> bool {
    forall|i: int, j: int| 0 <= i < j < s.len() ==> (#[trigger] s[i]).0 != (#[trigger] s[j]).0
}

impl LedgerQueryPending {
    pub open spec fn wf(&self) -> bool {
        spec_attempts_wf(self.attempts@)
    }

    /// A single fresh attempt by one peer.
    pub fn one(peer: PeerId, st: PeerRpcState) -> (r: LedgerQueryPending)
        ensures
            r.wf(),
            forall|q: PeerId| spec_attempt_of(r.attempts@, q) == (if q == peer {
                Some(st)
            } else {
                None::<PeerRpcState>
            }),
    {
        let r = LedgerQueryPending { attempts: vec![(peer, st)] };
        proof {
            assert forall|q: PeerId| spec_attempt_of(r.attempts@, q) == (if q == peer {
                Some(st)
            } else {
                None::<PeerRpcState>
            }) by {
                assert(r.attempts@.drop_last() =~= Seq::<(PeerId, PeerRpcState)>::empty());
                assert(spec_attempt_of(Seq::<(PeerId, PeerRpcState)>::empty(), q) is None);
                assert(r.attempts@.last() == (peer, st));
            }
        }
        r
    }

    /// The attempt a peer has on record, if any.
    pub fn get(&self, peer: PeerId) -> (r: Option<PeerRpcState>)
        requires
            self.wf(),
        ensures
            r == spec_attempt_of(self.attempts@, peer),
    {
        let n = self.attempts.len();
        let mut i: usize = 0;
        while i < n
            invariant
                i <= n,
                n == self.attempts@.len(),
                self.wf(),
                forall|j: int| 0 <= j < i ==> (#[trigger] self.attempts@[j]).0 != peer,
            decreases n - i,
        {
            if self.attempts[i].0 == peer {
                proof {
                    lemma_attempt_of_unique(self.attempts@, i as int);
                }
                return Some(self.attempts[i].1);
            }
            i = i + 1;
        }
        proof {
            lemma_attempt_of_absent(self.attempts@, peer);
        }
        None
    }

    /// Records or replaces a peer's attempt.
    pub fn set(&mut self, peer: PeerId, st: PeerRpcState)
        requires
            old(self).wf(),
        ensures
            final(self).wf(),
            forall|q: PeerId| spec_attempt_of(final(self).attempts@, q) == (if q == peer {
                Some(st)
            } else {
                spec_attempt_of(old(self).attempts@, q)
            }),
    {
        let n = self.attempts.len();
        let mut i: usize = 0;
        while i < n
            invariant
                i <= n,
                n == self.attempts@.len(),
                self == old(self),
                old(self).wf(),
                forall|j: int| 0 <= j < i ==> (#[trigger] self.attempts@[j]).0 != peer,
            decreases n - i,
        {
            if self.attempts[i].0 == peer {
                let ghost pre = self.attempts@;
                self.attempts.set(i, (peer, st));
                proof {
                    assert(self.attempts@ =~= pre.update(i as int, (peer, st)));
                    assert forall|q: PeerId| spec_attempt_of(self.attempts@, q) == (if q == peer {
                        Some(st)
                    } else {
                        spec_attempt_of(pre, q)
                    }) by {
                        lemma_attempt_of_update(pre, i as int, peer, st, q);
                    }
                }
                return ;
            }
            i = i + 1;
        }
        let ghost pre = self.attempts@;
        self.attempts.push((peer, st));
        proof {
            assert(self.attempts@.drop_last() =~= pre);
            assert forall|q: PeerId| q != peer implies spec_attempt_of(self.attempts@, q)
                == spec_attempt_of(pre, q) by {}
        }
    }
}

/// In a list whose entries all avoid `peer`, no attempt is on record.
pub proof fn lemma_attempt_of_absent(s: Seq<(PeerId, PeerRpcState)>, peer: PeerId)
    requires
        forall|j: int| 0 <= j < s.len() ==> (#[trigger] s[j]).0 != peer,
    ensures
        spec_attempt_of(s, peer) is None,
    decreases s.len(),
{
    if s.len() > 0 {
        lemma_attempt_of_absent(s.drop_last(), peer);
    }
}

/// With unique peers, the attempt on record is the one at the peer's
/// entry.
pub proof fn lemma_attempt_of_unique(s: Seq<(PeerId, PeerRpcState)>, k: int)
    requires
        0 <= k < s.len(),
        spec_attempts_wf(s),
    ensures
        spec_attempt_of(s, s[k].0) == Some(s[k].1),
    decreases s.len(),
{
    if k == s.len() - 1 {
    } else {
        lemma_attempt_of_unique(s.drop_last(), k);
    }
}

/// Updating the unique entry of a peer updates its attempt and nobody
/// else's.
pub proof fn lemma_attempt_of_update(
    s: Seq<(PeerId, PeerRpcState)>,
    k: int,
    peer: PeerId,
    st: PeerRpcState,
    q: PeerId,
)
    requires
        0 <= k < s.len(),
        spec_attempts_wf(s),
        s[k].0 == peer,
    ensures
        spec_attempt_of(s.update(k, (peer, st)), q) == (if q == peer {
            Some(st)
        } else {
            spec_attempt_of(s, q)
        }),
    decreases s.len(),
{
    let s2 = s.update(k, (peer, st));
    if k == s.len() - 1 {
        assert(s2.drop_last() =~= s.drop_last());
        if q != peer {
            assert(spec_attempt_of(s2, q) == spec_attempt_of(s.drop_last(), q));
        }
    } else {
        assert(s2.drop_last() =~= s.drop_last().update(k, (peer, st)));
        assert(s2.last() == s.last());
        lemma_attempt_of_update(s.drop_last(), k, peer, st, q);
        if q == peer {
            assert(s.last().0 != peer);
        }
    }
}

// ---------------------------------------------------------------------------
// The pending-address table
// ---------------------------------------------------------------------------
/// The attempts a pending table records under an address: the last entry
/// wins, though a well-formed table has no duplicate addresses.
pub open spec fn spec_pending_of(
    s: Seq<(LedgerAddress, LedgerQueryPending)>,
    addr: LedgerAddress,
) -> Option<LedgerQueryPending>
    decreases s.len(),
{
    if s.len() == 0 {
        None
    } else if s.last().0 == addr {
        Some(s.last().1)
    } else {
        spec_pending_of(s.drop_last(), addr)
    }
}

pub open spec fn spec_pending_contains(
    s: Seq<(LedgerAddress, LedgerQueryPending)>,
    addr: LedgerAddress,
) -> bool {
    spec_pending_of(s, addr) is Some
}

/// The attempt one peer has on record for one pending address.
pub open spec fn spec_pending_attempt(
    s: Seq<(LedgerAddress, LedgerQueryPending)>,
    addr: LedgerAddress,
    peer: PeerId,
) -> Option<PeerRpcState> {
    match spec_pending_of(s, addr) {
        Some(e) => spec_attempt_of(e.attempts@, peer),
        None => None,
    }
}

/// Unique addresses, each with a well-formed attempt list.
pub open spec fn spec_pending_wf(s: Seq<(LedgerAddress, LedgerQueryPending)>) -> bool {
    &&& forall|i: int, j: int|
        0 <= i < j < s.len() ==> (#[trigger] s[i]).0 != (#[trigger] s[j]).0
    &&& forall|i: int| 0 <= i < s.len() ==> (#[trigger] s[i]).1.wf()
}

/// Whether this entry records `peer` as waiting on `rpc_id`.
pub open spec fn spec_entry_pending_with(
    e: LedgerQueryPending,
    peer: PeerId,
    rpc_id: P2pRpcId,
) -> bool {
    match spec_attempt_of(e.attempts@, peer) {
        Some(PeerRpcState::Pending { rpc_id: r, .. }) => r == rpc_id,
        _ => false,
    }
}

/// The first pending address, front to back, on which `peer` is waiting
/// under `rpc_id`.
pub open spec fn spec_find_rpc(
    s: Seq<(LedgerAddress, LedgerQueryPending)>,
    peer: PeerId,
    rpc_id: P2pRpcId,
) -> Option<LedgerAddress>
    decreases s.len(),
{
    if s.len() == 0 {
        None
    } else if spec_entry_pending_with(s[0].1, peer, rpc_id) {
        Some(s[0].0)
    } else {
        spec_find_rpc(s.drop_first(), peer, rpc_id)
    }
}

pub proof fn lemma_pending_of_absent(s: Seq<(LedgerAddress, LedgerQueryPending)>, a: LedgerAddress)
    requires
        forall|j: int| 0 <= j < s.len() ==> (#[trigger] s[j]).0 != a,
    ensures
        spec_pending_of(s, a) is None,
    decreases s.len(),
{
    if s.len() > 0 {
        lemma_pending_of_absent(s.drop_last(), a);
    }
}

pub proof fn lemma_pending_of_unique(s: Seq<(LedgerAddress, LedgerQueryPending)>, k: int)
    requires
        0 <= k < s.len(),
        forall|i: int, j: int| 0 <= i < j < s.len() ==> (#[trigger] s[i]).0 != (#[trigger] s[j]).0,
    ensures
        spec_pending_of(s, s[k].0) == Some(s[k].1),
    decreases s.len(),
{
    if k < s.len() - 1 {
        lemma_pending_of_unique(s.drop_last(), k);
    }
}

pub proof fn lemma_pending_of_update(
    s: Seq<(LedgerAddress, LedgerQueryPending)>,
    k: int,
    e: LedgerQueryPending,
    q: LedgerAddress,
)
    requires
        0 <= k < s.len(),
        forall|i: int, j: int| 0 <= i < j < s.len() ==> (#[trigger] s[i]).0 != (#[trigger] s[j]).0,
    ensures
        spec_pending_of(s.update(k, (s[k].0, e)), q) == (if q == s[k].0 {
            Some(e)
        } else {
            spec_pending_of(s, q)
        }),
    decreases s.len(),
{
    let s2 = s.update(k, (s[k].0, e));
    if k == s.len() - 1 {
        assert(s2.drop_last() =~= s.drop_last());
        if q != s[k].0 {
            assert(spec_pending_of(s2, q) == spec_pending_of(s.drop_last(), q));
        }
    } else {
        assert(s2.drop_last() =~= s.drop_last().update(k, (s[k].0, e)));
        assert(s2.last() == s.last());
        lemma_pending_of_update(s.drop_last(), k, e, q);
        if q == s[k].0 {
            assert(s.last().0 != s[k].0);
        }
    }
}

pub proof fn lemma_pending_of_remove(
    s: Seq<(LedgerAddress, LedgerQueryPending)>,
    k: int,
    q: LedgerAddress,
)
    requires
        0 <= k < s.len(),
        forall|i: int, j: int| 0 <= i < j < s.len() ==> (#[trigger] s[i]).0 != (#[trigger] s[j]).0,
    ensures
        spec_pending_of(s.remove(k), q) == (if q == s[k].0 {
            None::<LedgerQueryPending>
        } else {
            spec_pending_of(s, q)
        }),
    decreases s.len(),
{
    let s2 = s.remove(k);
    if k == s.len() - 1 {
        assert(s2 =~= s.drop_last());
        if q == s[k].0 {
            assert(forall|j: int| 0 <= j < s2.len() ==> (#[trigger] s2[j]).0 != q);
            lemma_pending_of_absent(s2, q);
        }
    } else {
        assert(s2.drop_last() =~= s.drop_last().remove(k));
        assert(s2.last() == s.last());
        lemma_pending_of_remove(s.drop_last(), k, q);
        if q == s[k].0 {
            assert(s.last().0 != q);
        }
    }
}

// ---------------------------------------------------------------------------
// The phased sync state
// ---------------------------------------------------------------------------
/// One phase of the ledger-sync run. Transitions only ever move to a
/// higher phase; a sync is abandoned only by rebuilding the whole state
/// from `Init`.
#[derive(Clone, Debug, PartialEq)]
pub enum TransitionFrontierSyncLedgerState {
    /// A sync run was set up but nothing fetched yet; `block` names the
    /// block whose snarked ledger the run fetches.
    Init { time: Timestamp, block: u64 },
    /// Fetching the snarked ledger tree: `next_addr` is the next address
    /// to fetch (`None` when the walk is complete), `pending` the
    /// outstanding address with its per-peer attempts.
    SnarkedLedgerSyncPending {
        time: Timestamp,
        /// The block whose snarked ledger is being fetched; peers are
        /// queried against this ledger.
        block: u64,
        pending: Vec<(LedgerAddress, LedgerQueryPending)>,
        next_addr: Option<LedgerAddress>,
    },
    SnarkedLedgerSyncSuccess { time: Timestamp },
    StagedLedgerPartsFetchPending { time: Timestamp },
    StagedLedgerPartsFetchSuccess { time: Timestamp },
    StagedLedgerReconstructPending { time: Timestamp },
    StagedLedgerReconstructSuccess { time: Timestamp },
    Success { time: Timestamp },
}

impl TransitionFrontierSyncLedgerState {
    /// Position of the phase in the sync run's order.
    pub open spec fn phase_index(&self) -> int {
        match self {
            TransitionFrontierSyncLedgerState::Init { .. } => 0,
            TransitionFrontierSyncLedgerState::SnarkedLedgerSyncPending { .. } => 1,
            TransitionFrontierSyncLedgerState::SnarkedLedgerSyncSuccess { .. } => 2,
            TransitionFrontierSyncLedgerState::StagedLedgerPartsFetchPending { .. } => 3,
            TransitionFrontierSyncLedgerState::StagedLedgerPartsFetchSuccess { .. } => 4,
            TransitionFrontierSyncLedgerState::StagedLedgerReconstructPending { .. } => 5,
            TransitionFrontierSyncLedgerState::StagedLedgerReconstructSuccess { .. } => 6,
            TransitionFrontierSyncLedgerState::Success { .. } => 7,
        }
    }

    /// Structural soundness of the fetch phase: unique pending addresses
    /// with well-formed attempts, every pending address is the one the
    /// walk stands on, and addresses stay within the tree.
    pub open spec fn wf(&self) -> bool {
        match self {
            TransitionFrontierSyncLedgerState::SnarkedLedgerSyncPending {
                pending,
                next_addr,
                ..
            } => {
                &&& spec_pending_wf(pending@)
                &&& (forall|i: int|
                    0 <= i < pending@.len() ==> Some((#[trigger] pending@[i]).0) == *next_addr)
                &&& (next_addr matches Some(a) ==> a.length < LEDGER_DEPTH)
            },
            _ => true,
        }
    }

    /// The next ledger-tree address the sync wants fetched.
    pub open spec fn spec_sync_next(&self) -> Option<LedgerAddress> {
        match self {
            TransitionFrontierSyncLedgerState::SnarkedLedgerSyncPending { next_addr, .. } => {
                *next_addr
            },
            _ => None,
        }
    }

    /// The next ledger-tree address the sync wants fetched, if the fetch
    /// phase is running.
    pub fn snarked_ledger_sync_next(&self) -> (r: Option<LedgerAddress>)
        ensures
            r == self.spec_sync_next(),
    {
        match self {
            TransitionFrontierSyncLedgerState::SnarkedLedgerSyncPending { next_addr, .. } => {
                *next_addr
            },
            _ => None,
        }
    }

    /// The pending address on which `peer_id` is waiting under `rpc_id`.
    pub open spec fn spec_peer_query_get(&self, peer_id: PeerId, rpc_id: P2pRpcId) -> Option<
        LedgerAddress,
    > {
        match self {
            TransitionFrontierSyncLedgerState::SnarkedLedgerSyncPending { pending, .. } => {
                spec_find_rpc(pending@, peer_id, rpc_id)
            },
            _ => None,
        }
    }

    /// Finds the pending address whose attempt by `peer_id` is waiting on
    /// `rpc_id`.
    pub fn snarked_ledger_peer_query_get(&self, peer_id: PeerId, rpc_id: P2pRpcId) -> (r: Option<
        LedgerAddress,
    >)
        requires
            self.wf(),
        ensures
            r == self.spec_peer_query_get(peer_id, rpc_id),
    {
        match self {
            TransitionFrontierSyncLedgerState::SnarkedLedgerSyncPending { pending, .. } => {
                proof {
                    assert(pending@.skip(0) =~= pending@);
                }
                let n = pending.len();
                let mut i: usize = 0;
                while i < n
                    invariant
                        i <= n,
                        n == pending@.len(),
                        spec_pending_wf(pending@),
                        self.spec_peer_query_get(peer_id, rpc_id) == spec_find_rpc(
                            pending@,
                            peer_id,
                            rpc_id,
                        ),
                        spec_find_rpc(pending@, peer_id, rpc_id) == spec_find_rpc(
                            pending@.skip(i as int),
                            peer_id,
                            rpc_id,
                        ),
                    decreases n - i,
                {
                    proof {
                        assert(pending@.skip(i as int)[0] == pending@[i as int]);
                        assert(pending@.skip(i as int).drop_first() =~= pending@.skip(i + 1));
                    }
                    let e = &pending[i].1;
                    match e.get(peer_id) {
                        Some(PeerRpcState::Pending { rpc_id: r, .. }) => {
                            if r == rpc_id {
                                proof {
                                    assert(spec_entry_pending_with(
                                        pending@[i as int].1,
                                        peer_id,
                                        rpc_id,
                                    ));
                                    assert(spec_find_rpc(
                                        pending@.skip(i as int),
                                        peer_id,
                                        rpc_id,
                                    ) == Some(pending@[i as int].0));
                                }
                                return Some(pending[i].0);
                            }
                        },
                        _ => {},
                    }
                    proof {
                        assert(!spec_entry_pending_with(pending@[i as int].1, peer_id, rpc_id));
                    }
                    i = i + 1;
                }
                proof {
                    assert(pending@.skip(n as int) =~= Seq::<(
                        LedgerAddress,
                        LedgerQueryPending,
                    )>::empty());
                }
                None
            },
            _ => None,
        }
    }
}

// ---------------------------------------------------------------------------
// Actions
// ---------------------------------------------------------------------------
/// Sets a prepared sync run fetching.
#[derive(Clone, Copy, Debug, PartialEq, Eq, Structural)]
pub struct TransitionFrontierSyncLedgerInitAction {}

/// Enters the snarked-ledger fetch phase.
#[derive(Clone, Copy, Debug, PartialEq, Eq, Structural)]
pub struct TransitionFrontierSyncLedgerSnarkedLedgerSyncPendingAction {}

/// One tick of fanning queries out to ready peers.
#[derive(Clone, Copy, Debug, PartialEq, Eq, Structural)]
pub struct TransitionFrontierSyncLedgerSnarkedLedgerSyncPeersQueryAction {}

/// Starts one peer's attempt at the address the walk stands on.
#[derive(Clone, Copy, Debug, PartialEq, Eq, Structural)]
pub struct TransitionFrontierSyncLedgerSnarkedLedgerSyncPeerQueryInitAction {
    pub address: LedgerAddress,
    pub peer_id: PeerId,
}

/// Marks a peer's attempt as sent under an RPC id.
#[derive(Clone, Copy, Debug, PartialEq, Eq, Structural)]
pub struct TransitionFrontierSyncLedgerSnarkedLedgerSyncPeerQueryPendingAction {
    pub address: LedgerAddress,
    pub peer_id: PeerId,
    pub rpc_id: P2pRpcId,
}

/// Absorbs a peer's response to an outstanding query.
#[derive(Clone, Debug, PartialEq)]
pub struct TransitionFrontierSyncLedgerSnarkedLedgerSyncPeerQuerySuccessAction {
    pub peer_id: PeerId,
    pub rpc_id: P2pRpcId,
    pub response: PeerLedgerQueryResponse,
}

/// Marks a peer's attempt failed; the address stays pending for retry.
#[derive(Clone, Copy, Debug, PartialEq, Eq, Structural)]
pub struct TransitionFrontierSyncLedgerSnarkedLedgerSyncPeerQueryErrorAction {
    pub peer_id: PeerId,
    pub rpc_id: P2pRpcId,
}

/// Finishes the snarked-ledger fetch once the walk and the table drain.
#[derive(Clone, Copy, Debug, PartialEq, Eq, Structural)]
pub struct TransitionFrontierSyncLedgerSnarkedLedgerSyncSuccessAction {}

/// Asks a peer for the staged-ledger parts.
#[derive(Clone, Copy, Debug, PartialEq, Eq, Structural)]
pub struct TransitionFrontierSyncLedgerStagedLedgerPartsFetchInitAction {}

/// Enters the staged-ledger parts fetch phase.
#[derive(Clone, Copy, Debug, PartialEq, Eq, Structural)]
pub struct TransitionFrontierSyncLedgerStagedLedgerPartsFetchPendingAction {}

/// Finishes the staged-ledger parts fetch.
#[derive(Clone, Copy, Debug, PartialEq, Eq, Structural)]
pub struct TransitionFrontierSyncLedgerStagedLedgerPartsFetchSuccessAction {}

/// Starts reconstructing the staged ledger from the fetched parts.
#[derive(Clone, Copy, Debug, PartialEq, Eq, Structural)]
pub struct TransitionFrontierSyncLedgerStagedLedgerReconstructInitAction {}

/// Enters the staged-ledger reconstruction phase.
#[derive(Clone, Copy, Debug, PartialEq, Eq, Structural)]
pub struct TransitionFrontierSyncLedgerStagedLedgerReconstructPendingAction {}

/// Finishes the staged-ledger reconstruction.
#[derive(Clone, Copy, Debug, PartialEq, Eq, Structural)]
pub struct TransitionFrontierSyncLedgerStagedLedgerReconstructSuccessAction {}

/// Concludes the whole sync run.
#[derive(Clone, Copy, Debug, PartialEq, Eq, Structural)]
pub struct TransitionFrontierSyncLedgerSuccessAction {}

/// Everything that can happen to the ledger-sync state machine.
#[derive(Clone, Debug, PartialEq)]
pub enum TransitionFrontierSyncLedgerAction {
    Init(TransitionFrontierSyncLedgerInitAction),
    SnarkedLedgerSyncPending(TransitionFrontierSyncLedgerSnarkedLedgerSyncPendingAction),
    SnarkedLedgerSyncPeersQuery(TransitionFrontierSyncLedgerSnarkedLedgerSyncPeersQueryAction),
    SnarkedLedgerSyncPeerQueryInit(
        TransitionFrontierSyncLedgerSnarkedLedgerSyncPeerQueryInitAction,
    ),
    SnarkedLedgerSyncPeerQueryPending(
        TransitionFrontierSyncLedgerSnarkedLedgerSyncPeerQueryPendingAction,
    ),
    SnarkedLedgerSyncPeerQuerySuccess(
        TransitionFrontierSyncLedgerSnarkedLedgerSyncPeerQuerySuccessAction,
    ),
    SnarkedLedgerSyncPeerQueryError(
        TransitionFrontierSyncLedgerSnarkedLedgerSyncPeerQueryErrorAction,
    ),
    SnarkedLedgerSyncSuccess(TransitionFrontierSyncLedgerSnarkedLedgerSyncSuccessAction),
    StagedLedgerPartsFetchInit(TransitionFrontierSyncLedgerStagedLedgerPartsFetchInitAction),
    StagedLedgerPartsFetchPending(TransitionFrontierSyncLedgerStagedLedgerPartsFetchPendingAction),
    StagedLedgerPartsFetchSuccess(TransitionFrontierSyncLedgerStagedLedgerPartsFetchSuccessAction),
    StagedLedgerReconstructInit(TransitionFrontierSyncLedgerStagedLedgerReconstructInitAction),
    StagedLedgerReconstructPending(
        TransitionFrontierSyncLedgerStagedLedgerReconstructPendingAction,
    ),
    StagedLedgerReconstructSuccess(
        TransitionFrontierSyncLedgerStagedLedgerReconstructSuccessAction,
    ),
    Success(TransitionFrontierSyncLedgerSuccessAction),
}

/// The part of an action's enabling condition that reads the sync-ledger
/// state alone (readiness of peers is checked besides). This predicate is
/// the sole gate of every state change: the reducer applies an action only
/// where it holds.
pub open spec fn spec_enabled_local(
    s: TransitionFrontierSyncLedgerState,
    a: TransitionFrontierSyncLedgerAction,
) -> bool {
    match a {
        TransitionFrontierSyncLedgerAction::Init(_) => s is Init,
        TransitionFrontierSyncLedgerAction::SnarkedLedgerSyncPending(_) => s is Init,
        TransitionFrontierSyncLedgerAction::SnarkedLedgerSyncPeersQuery(_) => s.spec_sync_next()
            is Some,
        TransitionFrontierSyncLedgerAction::SnarkedLedgerSyncPeerQueryInit(v) => {
            match s {
                TransitionFrontierSyncLedgerState::SnarkedLedgerSyncPending {
                    pending,
                    next_addr,
                    ..
                } => {
                    &&& next_addr == Some(v.address)
                    &&& (v.address.index != 0 || pending@.len() == 0)
                },
                _ => false,
            }
        },
        TransitionFrontierSyncLedgerAction::SnarkedLedgerSyncPeerQueryPending(v) => {
            match s {
                TransitionFrontierSyncLedgerState::SnarkedLedgerSyncPending { pending, .. } => {
                    // some pending address holds an initialized attempt by
                    // the peer; a request can only go on the wire for an
                    // attempt that was first created
                    exists|i: int|
                        0 <= i < pending@.len() && (spec_attempt_of(
                            (#[trigger] pending@[i]).1.attempts@,
                            v.peer_id,
                        ) matches Some(PeerRpcState::Init { .. }))
                },
                _ => false,
            }
        },
        TransitionFrontierSyncLedgerAction::SnarkedLedgerSyncPeerQuerySuccess(v) => {
            s.spec_peer_query_get(v.peer_id, v.rpc_id) is Some
        },
        TransitionFrontierSyncLedgerAction::SnarkedLedgerSyncPeerQueryError(v) => {
            s.spec_peer_query_get(v.peer_id, v.rpc_id) is Some
        },
        TransitionFrontierSyncLedgerAction::SnarkedLedgerSyncSuccess(_) => {
            match s {
                TransitionFrontierSyncLedgerState::SnarkedLedgerSyncPending {
                    pending,
                    next_addr,
                    ..
                } => next_addr is None && pending@.len() == 0,
                _ => false,
            }
        },
        TransitionFrontierSyncLedgerAction::StagedLedgerPartsFetchInit(_) => s
            is SnarkedLedgerSyncSuccess,
        TransitionFrontierSyncLedgerAction::StagedLedgerPartsFetchPending(_) => s
            is SnarkedLedgerSyncSuccess,
        TransitionFrontierSyncLedgerAction::StagedLedgerPartsFetchSuccess(_) => s
            is StagedLedgerPartsFetchPending,
        TransitionFrontierSyncLedgerAction::StagedLedgerReconstructInit(_) => s
            is StagedLedgerPartsFetchSuccess,
        TransitionFrontierSyncLedgerAction::StagedLedgerReconstructPending(_) => s
            is StagedLedgerPartsFetchSuccess,
        TransitionFrontierSyncLedgerAction::StagedLedgerReconstructSuccess(_) => s
            is StagedLedgerReconstructPending,
        TransitionFrontierSyncLedgerAction::Success(_) => s is StagedLedgerReconstructSuccess,
    }
}

// ---------------------------------------------------------------------------
// Pending-table operations
// ---------------------------------------------------------------------------
/// Records or replaces one peer's attempt on an address, creating the
/// address entry if it is new.
fn pending_upsert(
    v: &mut Vec<(LedgerAddress, LedgerQueryPending)>,
    addr: LedgerAddress,
    peer: PeerId,
    st: PeerRpcState,
)
    requires
        spec_pending_wf(old(v)@),
    ensures
        spec_pending_wf(final(v)@),
        forall|a2: LedgerAddress|
            spec_pending_contains(final(v)@, a2) == (spec_pending_contains(old(v)@, a2) || a2
                == addr),
        forall|a2: LedgerAddress, q: PeerId|
            spec_pending_attempt(final(v)@, a2, q) == (if a2 == addr && q == peer {
                Some(st)
            } else {
                spec_pending_attempt(old(v)@, a2, q)
            }),
        forall|i: int|
            0 <= i < final(v)@.len() ==> ((#[trigger] final(v)@[i]).0 == addr || (exists|j: int|
                0 <= j < old(v)@.len() && (#[trigger] old(v)@[j]).0 == final(v)@[i].0)),
{
    let n = v.len();
    let mut i: usize = 0;
    while i < n
        invariant
            i <= n,
            n == v@.len(),
            v == old(v),
            spec_pending_wf(v@),
            forall|j: int| 0 <= j < i ==> (#[trigger] v@[j]).0 != addr,
        decreases n - i,
    {
        if v[i].0 == addr {
            let ghost pre = v@;
            let mut entry = v.remove(i);
            entry.1.set(peer, st);
            let ghost e2 = entry;
            v.insert(i, entry);
            proof {
                assert(v@ =~= pre.update(i as int, (pre[i as int].0, e2.1)));
                lemma_pending_of_unique(pre, i as int);
                assert forall|a2: LedgerAddress, q: PeerId|
                    spec_pending_attempt(v@, a2, q) == (if a2 == addr && q == peer {
                        Some(st)
                    } else {
                        spec_pending_attempt(pre, a2, q)
                    }) by {
                    lemma_pending_of_update(pre, i as int, e2.1, a2);
                }
                assert forall|a2: LedgerAddress|
                    spec_pending_contains(v@, a2) == (spec_pending_contains(pre, a2) || a2
                        == addr) by {
                    lemma_pending_of_update(pre, i as int, e2.1, a2);
                }
            }
            return ;
        }
        i = i + 1;
    }
    let ghost pre = v@;
    let entry = LedgerQueryPending::one(peer, st);
    v.push((addr, entry));
    proof {
        assert(v@.drop_last() =~= pre);
        lemma_pending_of_absent(pre, addr);
        assert forall|a2: LedgerAddress, q: PeerId|
            spec_pending_attempt(v@, a2, q) == (if a2 == addr && q == peer {
                Some(st)
            } else {
                spec_pending_attempt(pre, a2, q)
            }) by {
            if a2 == addr {
                assert(spec_pending_of(v@, a2) == Some(entry));
            } else {
                assert(spec_pending_of(v@, a2) == spec_pending_of(pre, a2));
            }
        }
    }
}

/// Records or replaces one peer's attempt on an address already pending;
/// an unknown address is left alone.
fn pending_set_if_present(
    v: &mut Vec<(LedgerAddress, LedgerQueryPending)>,
    addr: LedgerAddress,
    peer: PeerId,
    st: PeerRpcState,
)
    requires
        spec_pending_wf(old(v)@),
    ensures
        spec_pending_wf(final(v)@),
        forall|a2: LedgerAddress|
            spec_pending_contains(final(v)@, a2) == spec_pending_contains(old(v)@, a2),
        forall|a2: LedgerAddress, q: PeerId|
            spec_pending_attempt(final(v)@, a2, q) == (if a2 == addr && q == peer
                && spec_pending_contains(old(v)@, addr) {
                Some(st)
            } else {
                spec_pending_attempt(old(v)@, a2, q)
            }),
        final(v)@.len() == old(v)@.len(),
        forall|i: int|
            0 <= i < final(v)@.len() ==> (#[trigger] final(v)@[i]).0 == old(v)@[i].0,
{
    let n = v.len();
    let mut i: usize = 0;
    while i < n
        invariant
            i <= n,
            n == v@.len(),
            v == old(v),
            spec_pending_wf(v@),
            forall|j: int| 0 <= j < i ==> (#[trigger] v@[j]).0 != addr,
        decreases n - i,
    {
        if v[i].0 == addr {
            let ghost pre = v@;
            let mut entry = v.remove(i);
            entry.1.set(peer, st);
            let ghost e2 = entry;
            v.insert(i, entry);
            proof {
                assert(v@ =~= pre.update(i as int, (pre[i as int].0, e2.1)));
                lemma_pending_of_unique(pre, i as int);
                assert forall|a2: LedgerAddress, q: PeerId|
                    spec_pending_attempt(v@, a2, q) == (if a2 == addr && q == peer
                        && spec_pending_contains(pre, addr) {
                        Some(st)
                    } else {
                        spec_pending_attempt(pre, a2, q)
                    }) by {
                    lemma_pending_of_update(pre, i as int, e2.1, a2);
                }
                assert forall|a2: LedgerAddress|
                    spec_pending_contains(v@, a2) == spec_pending_contains(pre, a2) by {
                    lemma_pending_of_update(pre, i as int, e2.1, a2);
                }
            }
            return ;
        }
        i = i + 1;
    }
    proof {
        lemma_pending_of_absent(v@, addr);
    }
}

/// Drops the entry of an address, if present.
fn pending_remove_addr(v: &mut Vec<(LedgerAddress, LedgerQueryPending)>, addr: LedgerAddress)
    requires
        spec_pending_wf(old(v)@),
    ensures
        spec_pending_wf(final(v)@),
        forall|a2: LedgerAddress|
            spec_pending_contains(final(v)@, a2) == (spec_pending_contains(old(v)@, a2) && a2
                != addr),
        forall|a2: LedgerAddress|
            a2 != addr ==> spec_pending_of(final(v)@, a2) == spec_pending_of(old(v)@, a2),
        final(v)@.len() <= old(v)@.len(),
        forall|i: int|
            0 <= i < final(v)@.len() ==> (exists|j: int|
                0 <= j < old(v)@.len() && #[trigger] old(v)@[j] == #[trigger] final(v)@[i]),
{
    let n = v.len();
    let mut i: usize = 0;
    while i < n
        invariant
            i <= n,
            n == v@.len(),
            v == old(v),
            spec_pending_wf(v@),
            forall|j: int| 0 <= j < i ==> (#[trigger] v@[j]).0 != addr,
        decreases n - i,
    {
        if v[i].0 == addr {
            let ghost pre = v@;
            v.remove(i);
            proof {
                assert forall|a2: LedgerAddress|
                    spec_pending_of(v@, a2) == (if a2 == addr {
                        None::<LedgerQueryPending>
                    } else {
                        spec_pending_of(pre, a2)
                    }) by {
                    lemma_pending_of_remove(pre, i as int, a2);
                }
            }
            return ;
        }
        i = i + 1;
    }
    proof {
        lemma_pending_of_absent(v@, addr);
    }
}

/// Finds the pending address on which a peer waits under an RPC id.
fn pending_find_rpc(
    v: &Vec<(LedgerAddress, LedgerQueryPending)>,
    peer: PeerId,
    rpc_id: P2pRpcId,
) -> (r: Option<LedgerAddress>)
    requires
        spec_pending_wf(v@),
    ensures
        r == spec_find_rpc(v@, peer, rpc_id),
{
    proof {
        assert(v@.skip(0) =~= v@);
    }
    let n = v.len();
    let mut i: usize = 0;
    while i < n
        invariant
            i <= n,
            n == v@.len(),
            spec_pending_wf(v@),
            spec_find_rpc(v@, peer, rpc_id) == spec_find_rpc(v@.skip(i as int), peer, rpc_id),
        decreases n - i,
    {
        proof {
            assert(v@.skip(i as int)[0] == v@[i as int]);
            assert(v@.skip(i as int).drop_first() =~= v@.skip(i + 1));
        }
        let e = &v[i].1;
        match e.get(peer) {
            Some(PeerRpcState::Pending { rpc_id: r, .. }) => {
                if r == rpc_id {
                    proof {
                        assert(spec_entry_pending_with(v@[i as int].1, peer, rpc_id));
                    }
                    return Some(v[i].0);
                }
            },
            _ => {},
        }
        proof {
            assert(!spec_entry_pending_with(v@[i as int].1, peer, rpc_id));
        }
        i = i + 1;
    }
    proof {
        assert(v@.skip(n as int) =~= Seq::<(LedgerAddress, LedgerQueryPending)>::empty());
    }
    None
}

/// A found address names some table entry.
pub proof fn lemma_find_rpc_is_entry(
    s: Seq<(LedgerAddress, LedgerQueryPending)>,
    peer: PeerId,
    rpc_id: P2pRpcId,
)
    ensures
        spec_find_rpc(s, peer, rpc_id) matches Some(addr) ==> exists|i: int|
            0 <= i < s.len() && (#[trigger] s[i]).0 == addr,
    decreases s.len(),
{
    if s.len() > 0 {
        if !spec_entry_pending_with(s[0].1, peer, rpc_id) {
            lemma_find_rpc_is_entry(s.drop_first(), peer, rpc_id);
            match spec_find_rpc(s.drop_first(), peer, rpc_id) {
                Some(addr) => {
                    let i = choose|i: int|
                        0 <= i < s.drop_first().len() && (#[trigger] s.drop_first()[i]).0 == addr;
                    assert(s[i + 1].0 == addr);
                },
                None => {},
            }
        }
    }
}

/// How the sync-ledger machine steps under one action: nothing changes
/// where the state-side enabling condition fails, the phase index never
/// falls, and each enabled action's exact effect on the pending table,
/// the walk position and the phase is stated per action.
pub open spec fn spec_sync_ledger_step(
    pre: TransitionFrontierSyncLedgerState,
    post: TransitionFrontierSyncLedgerState,
    action: TransitionFrontierSyncLedgerAction,
    time: Timestamp,
) -> bool {
    &&& (!spec_enabled_local(pre, action) ==> post == pre)
    &&& (spec_enabled_local(pre, action) ==> pre.phase_index() <= post.phase_index())
    &&& (spec_enabled_local(pre, action) ==> match action {
                TransitionFrontierSyncLedgerAction::Init(_) => post == pre,
                TransitionFrontierSyncLedgerAction::SnarkedLedgerSyncPeersQuery(_) => post
                    == pre,
                TransitionFrontierSyncLedgerAction::StagedLedgerPartsFetchInit(_) => post
                    == pre,
                TransitionFrontierSyncLedgerAction::StagedLedgerReconstructInit(_) => post
                    == pre,
                TransitionFrontierSyncLedgerAction::SnarkedLedgerSyncPending(_) => (pre matches TransitionFrontierSyncLedgerState::Init {
                    block: b0,
                    ..
                } ==> (post matches TransitionFrontierSyncLedgerState::SnarkedLedgerSyncPending {
                    time: t1,
                    block: b1,
                    pending: p1,
                    next_addr: n1,
                } && t1 == time && b1 == b0 && p1@.len() == 0 && n1 == Some(
                    LedgerAddress { length: 0, index: 0 },
                ))),
                TransitionFrontierSyncLedgerAction::SnarkedLedgerSyncPeerQueryInit(v) => (pre matches TransitionFrontierSyncLedgerState::SnarkedLedgerSyncPending {
                    time: t0,
                    block: b0,
                    pending: p0,
                    next_addr: n0,
                } ==> (post matches TransitionFrontierSyncLedgerState::SnarkedLedgerSyncPending {
                    time: t1,
                    block: b1,
                    pending: p1,
                    next_addr: n1,
                } && t1 == t0 && b1 == b0 && n1 == n0 && (forall|a2: LedgerAddress|
                    spec_pending_contains(p1@, a2) == (spec_pending_contains(p0@, a2) || a2
                        == v.address)) && (forall|a2: LedgerAddress, q: PeerId|
                    spec_pending_attempt(p1@, a2, q) == (if a2 == v.address && q == v.peer_id {
                        Some(PeerRpcState::Init { time })
                    } else {
                        spec_pending_attempt(p0@, a2, q)
                    })))),
                TransitionFrontierSyncLedgerAction::SnarkedLedgerSyncPeerQueryPending(v) => (pre matches TransitionFrontierSyncLedgerState::SnarkedLedgerSyncPending {
                    time: t0,
                    block: b0,
                    pending: p0,
                    next_addr: n0,
                } ==> (post matches TransitionFrontierSyncLedgerState::SnarkedLedgerSyncPending {
                    time: t1,
                    block: b1,
                    pending: p1,
                    next_addr: n1,
                } && t1 == t0 && b1 == b0 && n1 == n0 && (forall|a2: LedgerAddress|
                    spec_pending_contains(p1@, a2) == spec_pending_contains(p0@, a2)) && (
                forall|a2: LedgerAddress, q: PeerId|
                    spec_pending_attempt(p1@, a2, q) == (if a2 == v.address && q == v.peer_id
                        && spec_pending_contains(p0@, v.address) {
                        Some(PeerRpcState::Pending { time, rpc_id: v.rpc_id })
                    } else {
                        spec_pending_attempt(p0@, a2, q)
                    })))),
                TransitionFrontierSyncLedgerAction::SnarkedLedgerSyncPeerQuerySuccess(v) => ({
                    &&& (pre matches TransitionFrontierSyncLedgerState::SnarkedLedgerSyncPending {
                        time: t0,
                        block: b0,
                        pending: p0,
                        next_addr: n0,
                    } ==> (post matches TransitionFrontierSyncLedgerState::SnarkedLedgerSyncPending {
                        time: t1,
                        block: b1,
                        pending: p1,
                        next_addr: n1,
                    } && t1 == t0 && b1 == b0 && (spec_find_rpc(p0@, v.peer_id, v.rpc_id) matches Some(addr)
                        ==> ((forall|a2: LedgerAddress|
                        spec_pending_contains(p1@, a2) == (spec_pending_contains(p0@, a2) && a2
                            != addr)) && n1 == (if n0 == Some(addr) {
                        spec_next_addr(addr)
                    } else {
                        n0
                    })))))
                    &&& post.spec_peer_query_get(v.peer_id, v.rpc_id) is None
                }),
                TransitionFrontierSyncLedgerAction::SnarkedLedgerSyncPeerQueryError(v) => (pre matches TransitionFrontierSyncLedgerState::SnarkedLedgerSyncPending {
                    time: t0,
                    block: b0,
                    pending: p0,
                    next_addr: n0,
                } ==> (post matches TransitionFrontierSyncLedgerState::SnarkedLedgerSyncPending {
                    time: t1,
                    block: b1,
                    pending: p1,
                    next_addr: n1,
                } && t1 == t0 && b1 == b0 && n1 == n0 && (forall|a2: LedgerAddress|
                    spec_pending_contains(p1@, a2) == spec_pending_contains(p0@, a2)) && (
                spec_find_rpc(p0@, v.peer_id, v.rpc_id) matches Some(addr) ==> (forall|
                    a2: LedgerAddress,
                    q: PeerId,
                |
                    spec_pending_attempt(p1@, a2, q) == (if a2 == addr && q == v.peer_id {
                        Some(PeerRpcState::Error { time, rpc_id: v.rpc_id })
                    } else {
                        spec_pending_attempt(p0@, a2, q)
                    }))))),
                TransitionFrontierSyncLedgerAction::SnarkedLedgerSyncSuccess(_) => post
                    == (TransitionFrontierSyncLedgerState::SnarkedLedgerSyncSuccess { time }),
                TransitionFrontierSyncLedgerAction::StagedLedgerPartsFetchPending(_) => post == (TransitionFrontierSyncLedgerState::StagedLedgerPartsFetchPending { time }),
                TransitionFrontierSyncLedgerAction::StagedLedgerPartsFetchSuccess(_) => post == (TransitionFrontierSyncLedgerState::StagedLedgerPartsFetchSuccess { time }),
                TransitionFrontierSyncLedgerAction::StagedLedgerReconstructPending(_) => post == (TransitionFrontierSyncLedgerState::StagedLedgerReconstructPending { time }),
                TransitionFrontierSyncLedgerAction::StagedLedgerReconstructSuccess(_) => post == (TransitionFrontierSyncLedgerState::StagedLedgerReconstructSuccess { time }),
                TransitionFrontierSyncLedgerAction::Success(_) => post
                    == (TransitionFrontierSyncLedgerState::Success { time }),
            })
}

impl TransitionFrontierSyncLedgerState {
    /// Whether the state-side enabling condition of an action holds.
    pub fn check_enabled_local(&self, action: &TransitionFrontierSyncLedgerAction) -> (r: bool)
        requires
            self.wf(),
        ensures
            r == spec_enabled_local(*self, *action),
    {
        match action {
            TransitionFrontierSyncLedgerAction::Init(_) => matches!(
                self,
                TransitionFrontierSyncLedgerState::Init { .. }
            ),
            TransitionFrontierSyncLedgerAction::SnarkedLedgerSyncPending(_) => matches!(
                self,
                TransitionFrontierSyncLedgerState::Init { .. }
            ),
            TransitionFrontierSyncLedgerAction::SnarkedLedgerSyncPeersQuery(_) => {
                self.snarked_ledger_sync_next().is_some()
            },
            TransitionFrontierSyncLedgerAction::SnarkedLedgerSyncPeerQueryInit(v) => {
                match self {
                    TransitionFrontierSyncLedgerState::SnarkedLedgerSyncPending {
                        pending,
                        next_addr,
                        ..
                    } => {
                        let next_matches = match next_addr {
                            Some(n) => *n == v.address,
                            None => false,
                        };
                        next_matches && (v.address.index != 0 || pending.len() == 0)
                    },
                    _ => false,
                }
            },
            TransitionFrontierSyncLedgerAction::SnarkedLedgerSyncPeerQueryPending(v) => {
                match self {
                    TransitionFrontierSyncLedgerState::SnarkedLedgerSyncPending {
                        pending,
                        ..
                    } => {
                        let n = pending.len();
                        let mut i: usize = 0;
                        while i < n
                            invariant
                                i <= n,
                                n == pending@.len(),
                                spec_pending_wf(pending@),
                                spec_enabled_local(*self, *action) == (exists|j: int|
                                    0 <= j < pending@.len() && (spec_attempt_of(
                                        (#[trigger] pending@[j]).1.attempts@,
                                        v.peer_id,
                                    ) matches Some(PeerRpcState::Init { .. }))),
                                forall|j: int|
                                    0 <= j < i ==> !(spec_attempt_of(
                                        (#[trigger] pending@[j]).1.attempts@,
                                        v.peer_id,
                                    ) matches Some(PeerRpcState::Init { .. })),
                            decreases n - i,
                        {
                            let has_init = match pending[i].1.get(v.peer_id) {
                                Some(PeerRpcState::Init { .. }) => true,
                                _ => false,
                            };
                            if has_init {
                                proof {
                                    assert(spec_attempt_of(
                                        pending@[i as int].1.attempts@,
                                        v.peer_id,
                                    ) matches Some(PeerRpcState::Init { .. }));
                                }
                                return true;
                            }
                            i = i + 1;
                        }
                        false
                    },
                    _ => false,
                }
            },
            TransitionFrontierSyncLedgerAction::SnarkedLedgerSyncPeerQuerySuccess(v) => {
                self.snarked_ledger_peer_query_get(v.peer_id, v.rpc_id).is_some()
            },
            TransitionFrontierSyncLedgerAction::SnarkedLedgerSyncPeerQueryError(v) => {
                self.snarked_ledger_peer_query_get(v.peer_id, v.rpc_id).is_some()
            },
            TransitionFrontierSyncLedgerAction::SnarkedLedgerSyncSuccess(_) => {
                match self {
                    TransitionFrontierSyncLedgerState::SnarkedLedgerSyncPending {
                        pending,
                        next_addr,
                        ..
                    } => next_addr.is_none() && pending.len() == 0,
                    _ => false,
                }
            },
            TransitionFrontierSyncLedgerAction::StagedLedgerPartsFetchInit(_) => matches!(
                self,
                TransitionFrontierSyncLedgerState::SnarkedLedgerSyncSuccess { .. }
            ),
            TransitionFrontierSyncLedgerAction::StagedLedgerPartsFetchPending(_) => matches!(
                self,
                TransitionFrontierSyncLedgerState::SnarkedLedgerSyncSuccess { .. }
            ),
            TransitionFrontierSyncLedgerAction::StagedLedgerPartsFetchSuccess(_) => matches!(
                self,
                TransitionFrontierSyncLedgerState::StagedLedgerPartsFetchPending { .. }
            ),
            TransitionFrontierSyncLedgerAction::StagedLedgerReconstructInit(_) => matches!(
                self,
                TransitionFrontierSyncLedgerState::StagedLedgerPartsFetchSuccess { .. }
            ),
            TransitionFrontierSyncLedgerAction::StagedLedgerReconstructPending(_) => matches!(
                self,
                TransitionFrontierSyncLedgerState::StagedLedgerPartsFetchSuccess { .. }
            ),
            TransitionFrontierSyncLedgerAction::StagedLedgerReconstructSuccess(_) => matches!(
                self,
                TransitionFrontierSyncLedgerState::StagedLedgerReconstructPending { .. }
            ),
            TransitionFrontierSyncLedgerAction::Success(_) => matches!(
                self,
                TransitionFrontierSyncLedgerState::StagedLedgerReconstructSuccess { .. }
            ),
        }
    }

    /// Applies one action: the state changes only where the action's
    /// state-side enabling condition holds (a disabled action is a silent
    /// no-op), and the phase index never regresses.
    pub fn reducer(&mut self, action: &TransitionFrontierSyncLedgerAction, time: Timestamp)
        requires
            old(self).wf(),
        ensures
            final(self).wf(),
            spec_sync_ledger_step(*old(self), *final(self), *action, time),
    {
        if !self.check_enabled_local(action) {
            return ;
        }
        match action {
            TransitionFrontierSyncLedgerAction::Init(_) => {},
            TransitionFrontierSyncLedgerAction::SnarkedLedgerSyncPeersQuery(_) => {},
            TransitionFrontierSyncLedgerAction::StagedLedgerPartsFetchInit(_) => {},
            TransitionFrontierSyncLedgerAction::StagedLedgerReconstructInit(_) => {},
            TransitionFrontierSyncLedgerAction::SnarkedLedgerSyncPending(_) => {
                let blk: u64 = match self {
                    TransitionFrontierSyncLedgerState::Init { block, .. } => *block,
                    _ => 0,
                };
                *self = TransitionFrontierSyncLedgerState::SnarkedLedgerSyncPending {
                    time,
                    block: blk,
                    pending: Vec::new(),
                    next_addr: Some(LedgerAddress::root()),
                };
            },
            TransitionFrontierSyncLedgerAction::SnarkedLedgerSyncPeerQueryInit(v) => {
                match self {
                    TransitionFrontierSyncLedgerState::SnarkedLedgerSyncPending {
                        pending,
                        ..
                    } => {
                        pending_upsert(
                            pending,
                            v.address,
                            v.peer_id,
                            PeerRpcState::Init { time },
                        );
                    },
                    _ => {},
                }
                proof {
                    assert(*old(self) matches TransitionFrontierSyncLedgerState::SnarkedLedgerSyncPending {
                        time: t0,
                        block: b0,
                        pending: p0,
                        next_addr: n0,
                    } ==> (*self matches TransitionFrontierSyncLedgerState::SnarkedLedgerSyncPending {
                        time: t1,
                        block: b1,
                        pending: p1,
                        next_addr: n1,
                    } && t1 == t0 && b1 == b0 && n1 == n0 && (forall|a2: LedgerAddress|
                        spec_pending_contains(p1@, a2) == (spec_pending_contains(p0@, a2) || a2
                            == v.address)) && (forall|a2: LedgerAddress, q: PeerId|
                        spec_pending_attempt(p1@, a2, q) == (if a2 == v.address && q
                            == v.peer_id {
                            Some(PeerRpcState::Init { time })
                        } else {
                            spec_pending_attempt(p0@, a2, q)
                        }))));
                }
            },
            TransitionFrontierSyncLedgerAction::SnarkedLedgerSyncPeerQueryPending(v) => {
                match self {
                    TransitionFrontierSyncLedgerState::SnarkedLedgerSyncPending {
                        pending,
                        ..
                    } => {
                        pending_set_if_present(
                            pending,
                            v.address,
                            v.peer_id,
                            PeerRpcState::Pending { time, rpc_id: v.rpc_id },
                        );
                    },
                    _ => {},
                }
                proof {
                    assert(*old(self) matches TransitionFrontierSyncLedgerState::SnarkedLedgerSyncPending {
                        time: t0,
                        block: b0,
                        pending: p0,
                        next_addr: n0,
                    } ==> (*self matches TransitionFrontierSyncLedgerState::SnarkedLedgerSyncPending {
                        time: t1,
                        block: b1,
                        pending: p1,
                        next_addr: n1,
                    } && t1 == t0 && b1 == b0 && n1 == n0 && (forall|a2: LedgerAddress|
                        spec_pending_contains(p1@, a2) == spec_pending_contains(p0@, a2)) && (
                    forall|a2: LedgerAddress, q: PeerId|
                        spec_pending_attempt(p1@, a2, q) == (if a2 == v.address && q == v.peer_id
                            && spec_pending_contains(p0@, v.address) {
                            Some(PeerRpcState::Pending { time, rpc_id: v.rpc_id })
                        } else {
                            spec_pending_attempt(p0@, a2, q)
                        }))));
                }
            },
            TransitionFrontierSyncLedgerAction::SnarkedLedgerSyncPeerQuerySuccess(v) => {
                match self {
                    TransitionFrontierSyncLedgerState::SnarkedLedgerSyncPending {
                        pending,
                        next_addr,
                        ..
                    } => {
                        let ghost p0 = pending@;
                        let ghost n0 = *next_addr;
                        proof {
                            assert(forall|i: int|
                                0 <= i < p0.len() ==> Some((#[trigger] p0[i]).0) == n0);
                        }
                        match pending_find_rpc(pending, v.peer_id, v.rpc_id) {
                            Some(addr) => {
                                proof {
                                    lemma_find_rpc_is_entry(p0, v.peer_id, v.rpc_id);
                                    let k = choose|k: int|
                                        0 <= k < p0.len() && (#[trigger] p0[k]).0 == addr;
                                    assert(n0 == Some(addr));
                                    assert(addr.length < LEDGER_DEPTH);
                                }
                                pending_remove_addr(pending, addr);
                                proof {
                                    if pending@.len() > 0 {
                                        let e0 = pending@[0];
                                        assert(exists|j: int|
                                            0 <= j < p0.len() && #[trigger] p0[j] == e0);
                                        let j = choose|j: int| 0 <= j < p0.len() && p0[j] == e0;
                                        assert(e0.0 == addr);
                                        lemma_pending_of_unique(pending@, 0);
                                        assert(spec_pending_contains(pending@, addr));
                                        assert(false);
                                    }
                                    assert(pending@.len() == 0);
                                }
                                let advance = match next_addr {
                                    Some(n) => *n == addr,
                                    None => false,
                                };
                                if advance {
                                    *next_addr = crate::ledger::next_addr(addr);
                                }
                                proof {
                                    assert(spec_find_rpc(
                                        pending@,
                                        v.peer_id,
                                        v.rpc_id,
                                    ) is None);
                                    assert(*next_addr == (if n0 == Some(addr) {
                                        spec_next_addr(addr)
                                    } else {
                                        n0
                                    }));
                                }
                            },
                            None => {},
                        }
                    },
                    _ => {},
                }
                proof {
                    assert(*old(self) matches TransitionFrontierSyncLedgerState::SnarkedLedgerSyncPending {
                        time: t0,
                        block: b0,
                        pending: p0,
                        next_addr: n0,
                    } ==> (*self matches TransitionFrontierSyncLedgerState::SnarkedLedgerSyncPending {
                        time: t1,
                        block: b1,
                        pending: p1,
                        next_addr: n1,
                    } && t1 == t0 && b1 == b0 && (spec_find_rpc(p0@, v.peer_id, v.rpc_id) matches Some(addr)
                        ==> ((forall|a2: LedgerAddress|
                        spec_pending_contains(p1@, a2) == (spec_pending_contains(p0@, a2) && a2
                            != addr)) && n1 == (if n0 == Some(addr) {
                        spec_next_addr(addr)
                    } else {
                        n0
                    })))));
                    assert(final(self).spec_peer_query_get(v.peer_id, v.rpc_id) is None);
                }
            },
            TransitionFrontierSyncLedgerAction::SnarkedLedgerSyncPeerQueryError(v) => {
                match self {
                    TransitionFrontierSyncLedgerState::SnarkedLedgerSyncPending {
                        pending,
                        ..
                    } => {
                        match pending_find_rpc(pending, v.peer_id, v.rpc_id) {
                            Some(addr) => {
                                proof {
                                    lemma_find_rpc_is_entry(pending@, v.peer_id, v.rpc_id);
                                    let k = choose|k: int|
                                        0 <= k < pending@.len() && (#[trigger] pending@[k]).0
                                            == addr;
                                    lemma_pending_of_unique(pending@, k);
                                }
                                pending_set_if_present(
                                    pending,
                                    addr,
                                    v.peer_id,
                                    PeerRpcState::Error { time, rpc_id: v.rpc_id },
                                );
                            },
                            None => {},
                        }
                    },
                    _ => {},
                }
                proof {
                    assert(*old(self) matches TransitionFrontierSyncLedgerState::SnarkedLedgerSyncPending {
                        time: t0,
                        block: b0,
                        pending: p0,
                        next_addr: n0,
                    } ==> (*self matches TransitionFrontierSyncLedgerState::SnarkedLedgerSyncPending {
                        time: t1,
                        block: b1,
                        pending: p1,
                        next_addr: n1,
                    } && t1 == t0 && b1 == b0 && n1 == n0 && (forall|a2: LedgerAddress|
                        spec_pending_contains(p1@, a2) == spec_pending_contains(p0@, a2)) && (
                    spec_find_rpc(p0@, v.peer_id, v.rpc_id) matches Some(addr) ==> (forall|
                        a2: LedgerAddress,
                        q: PeerId,
                    |
                        spec_pending_attempt(p1@, a2, q) == (if a2 == addr && q == v.peer_id {
                            Some(PeerRpcState::Error { time, rpc_id: v.rpc_id })
                        } else {
                            spec_pending_attempt(p0@, a2, q)
                        })))));
                }
            },
            TransitionFrontierSyncLedgerAction::SnarkedLedgerSyncSuccess(_) => {
                *self = TransitionFrontierSyncLedgerState::SnarkedLedgerSyncSuccess { time };
            },
            TransitionFrontierSyncLedgerAction::StagedLedgerPartsFetchPending(_) => {
                *self = TransitionFrontierSyncLedgerState::StagedLedgerPartsFetchPending { time };
            },
            TransitionFrontierSyncLedgerAction::StagedLedgerPartsFetchSuccess(_) => {
                *self = TransitionFrontierSyncLedgerState::StagedLedgerPartsFetchSuccess { time };
            },
            TransitionFrontierSyncLedgerAction::StagedLedgerReconstructPending(_) => {
                *self = TransitionFrontierSyncLedgerState::StagedLedgerReconstructPending { time };
            },
            TransitionFrontierSyncLedgerAction::StagedLedgerReconstructSuccess(_) => {
                *self = TransitionFrontierSyncLedgerState::StagedLedgerReconstructSuccess { time };
            },
            TransitionFrontierSyncLedgerAction::Success(_) => {
                *self = TransitionFrontierSyncLedgerState::Success { time };
            },
        }
    }
}

// ---------------------------------------------------------------------------
// Enabling conditions over the whole state
// ---------------------------------------------------------------------------
/// Checks the state-side part of a wrapped action plus, where the action
/// fans queries out, the availability of peers.
fn check_wrapped_enabled(state: &State, a: &TransitionFrontierSyncLedgerAction) -> (r: bool)
    requires
        state.wf(),
    ensures
        r == spec_sync_ledger_enabled(*state, *a),
{
    match &state.transition_frontier.sync {
        TransitionFrontierSyncState::RootLedgerSyncPending { root_ledger, .. } => {
            if !root_ledger.check_enabled_local(a) {
                false
            } else {
                match a {
                    TransitionFrontierSyncLedgerAction::SnarkedLedgerSyncPeersQuery(_) => {
                        state.p2p.any_ready_peer_can_send()
                    },
                    TransitionFrontierSyncLedgerAction::SnarkedLedgerSyncPeerQueryInit(v) => {
                        match state.p2p.get_ready_peer(v.peer_id) {
                            Some(p) => p.rpc_can_send,
                            None => false,
                        }
                    },
                    _ => true,
                }
            }
        },
        _ => false,
    }
}

impl TransitionFrontierSyncLedgerInitAction {
    pub fn is_enabled(&self, state: &State) -> (r: bool)
        requires
            state.wf(),
        ensures
            r == spec_sync_ledger_enabled(
                *state,
                TransitionFrontierSyncLedgerAction::Init(*self),
            ),
    {
        check_wrapped_enabled(state, &TransitionFrontierSyncLedgerAction::Init(*self))
    }
}

impl TransitionFrontierSyncLedgerSnarkedLedgerSyncPendingAction {
    pub fn is_enabled(&self, state: &State) -> (r: bool)
        requires
            state.wf(),
        ensures
            r == spec_sync_ledger_enabled(
                *state,
                TransitionFrontierSyncLedgerAction::SnarkedLedgerSyncPending(*self),
            ),
    {
        check_wrapped_enabled(
            state,
            &TransitionFrontierSyncLedgerAction::SnarkedLedgerSyncPending(*self),
        )
    }
}

impl TransitionFrontierSyncLedgerSnarkedLedgerSyncPeersQueryAction {
    pub fn is_enabled(&self, state: &State) -> (r: bool)
        requires
            state.wf(),
        ensures
            r == spec_sync_ledger_enabled(
                *state,
                TransitionFrontierSyncLedgerAction::SnarkedLedgerSyncPeersQuery(*self),
            ),
    {
        check_wrapped_enabled(
            state,
            &TransitionFrontierSyncLedgerAction::SnarkedLedgerSyncPeersQuery(*self),
        )
    }
}

impl TransitionFrontierSyncLedgerSnarkedLedgerSyncPeerQueryInitAction {
    pub fn is_enabled(&self, state: &State) -> (r: bool)
        requires
            state.wf(),
        ensures
            r == spec_sync_ledger_enabled(
                *state,
                TransitionFrontierSyncLedgerAction::SnarkedLedgerSyncPeerQueryInit(*self),
            ),
    {
        check_wrapped_enabled(
            state,
            &TransitionFrontierSyncLedgerAction::SnarkedLedgerSyncPeerQueryInit(*self),
        )
    }
}

impl TransitionFrontierSyncLedgerSnarkedLedgerSyncPeerQueryPendingAction {
    pub fn is_enabled(&self, state: &State) -> (r: bool)
        requires
            state.wf(),
        ensures
            r == spec_sync_ledger_enabled(
                *state,
                TransitionFrontierSyncLedgerAction::SnarkedLedgerSyncPeerQueryPending(*self),
            ),
    {
        check_wrapped_enabled(
            state,
            &TransitionFrontierSyncLedgerAction::SnarkedLedgerSyncPeerQueryPending(*self),
        )
    }
}

impl TransitionFrontierSyncLedgerSnarkedLedgerSyncPeerQuerySuccessAction {
    pub fn is_enabled(&self, state: &State) -> (r: bool)
        requires
            state.wf(),
        ensures
            r == spec_sync_ledger_enabled(
                *state,
                TransitionFrontierSyncLedgerAction::SnarkedLedgerSyncPeerQuerySuccess(*self),
            ),
    {
        match &state.transition_frontier.sync {
            TransitionFrontierSyncState::RootLedgerSyncPending { root_ledger, .. } => {
                root_ledger.snarked_ledger_peer_query_get(self.peer_id, self.rpc_id).is_some()
            },
            _ => false,
        }
    }
}

impl TransitionFrontierSyncLedgerSnarkedLedgerSyncPeerQueryErrorAction {
    pub fn is_enabled(&self, state: &State) -> (r: bool)
        requires
            state.wf(),
        ensures
            r == spec_sync_ledger_enabled(
                *state,
                TransitionFrontierSyncLedgerAction::SnarkedLedgerSyncPeerQueryError(*self),
            ),
    {
        check_wrapped_enabled(
            state,
            &TransitionFrontierSyncLedgerAction::SnarkedLedgerSyncPeerQueryError(*self),
        )
    }
}

impl TransitionFrontierSyncLedgerSnarkedLedgerSyncSuccessAction {
    pub fn is_enabled(&self, state: &State) -> (r: bool)
        requires
            state.wf(),
        ensures
            r == spec_sync_ledger_enabled(
                *state,
                TransitionFrontierSyncLedgerAction::SnarkedLedgerSyncSuccess(*self),
            ),
    {
        check_wrapped_enabled(
            state,
            &TransitionFrontierSyncLedgerAction::SnarkedLedgerSyncSuccess(*self),
        )
    }
}

impl TransitionFrontierSyncLedgerStagedLedgerPartsFetchInitAction {
    pub fn is_enabled(&self, state: &State) -> (r: bool)
        requires
            state.wf(),
        ensures
            r == spec_sync_ledger_enabled(
                *state,
                TransitionFrontierSyncLedgerAction::StagedLedgerPartsFetchInit(*self),
            ),
    {
        check_wrapped_enabled(
            state,
            &TransitionFrontierSyncLedgerAction::StagedLedgerPartsFetchInit(*self),
        )
    }
}

impl TransitionFrontierSyncLedgerStagedLedgerPartsFetchPendingAction {
    pub fn is_enabled(&self, state: &State) -> (r: bool)
        requires
            state.wf(),
        ensures
            r == spec_sync_ledger_enabled(
                *state,
                TransitionFrontierSyncLedgerAction::StagedLedgerPartsFetchPending(*self),
            ),
    {
        check_wrapped_enabled(
            state,
            &TransitionFrontierSyncLedgerAction::StagedLedgerPartsFetchPending(*self),
        )
    }
}

impl TransitionFrontierSyncLedgerStagedLedgerPartsFetchSuccessAction {
    pub fn is_enabled(&self, state: &State) -> (r: bool)
        requires
            state.wf(),
        ensures
            r == spec_sync_ledger_enabled(
                *state,
                TransitionFrontierSyncLedgerAction::StagedLedgerPartsFetchSuccess(*self),
            ),
    {
        check_wrapped_enabled(
            state,
            &TransitionFrontierSyncLedgerAction::StagedLedgerPartsFetchSuccess(*self),
        )
    }
}

impl TransitionFrontierSyncLedgerStagedLedgerReconstructInitAction {
    pub fn is_enabled(&self, state: &State) -> (r: bool)
        requires
            state.wf(),
        ensures
            r == spec_sync_ledger_enabled(
                *state,
                TransitionFrontierSyncLedgerAction::StagedLedgerReconstructInit(*self),
            ),
    {
        check_wrapped_enabled(
            state,
            &TransitionFrontierSyncLedgerAction::StagedLedgerReconstructInit(*self),
        )
    }
}

impl TransitionFrontierSyncLedgerStagedLedgerReconstructPendingAction {
    pub fn is_enabled(&self, state: &State) -> (r: bool)
        requires
            state.wf(),
        ensures
            r == spec_sync_ledger_enabled(
                *state,
                TransitionFrontierSyncLedgerAction::StagedLedgerReconstructPending(*self),
            ),
    {
        check_wrapped_enabled(
            state,
            &TransitionFrontierSyncLedgerAction::StagedLedgerReconstructPending(*self),
        )
    }
}

impl TransitionFrontierSyncLedgerStagedLedgerReconstructSuccessAction {
    pub fn is_enabled(&self, state: &State) -> (r: bool)
        requires
            state.wf(),
        ensures
            r == spec_sync_ledger_enabled(
                *state,
                TransitionFrontierSyncLedgerAction::StagedLedgerReconstructSuccess(*self),
            ),
    {
        check_wrapped_enabled(
            state,
            &TransitionFrontierSyncLedgerAction::StagedLedgerReconstructSuccess(*self),
        )
    }
}

impl TransitionFrontierSyncLedgerSuccessAction {
    pub fn is_enabled(&self, state: &State) -> (r: bool)
        requires
            state.wf(),
        ensures
            r == spec_sync_ledger_enabled(
                *state,
                TransitionFrontierSyncLedgerAction::Success(*self),
            ),
    {
        check_wrapped_enabled(state, &TransitionFrontierSyncLedgerAction::Success(*self))
    }
}

// ---------------------------------------------------------------------------
// Effects
// ---------------------------------------------------------------------------
/// The query-init actions one fan-out tick produces: one per ready peer
/// whose RPC channel can take a request, all for the address the walk
/// stands on.
pub open spec fn spec_peers_query_dispatches(
    peers: Seq<(PeerId, crate::p2p::P2pPeer)>,
    addr: LedgerAddress,
) -> Seq<Action>
    decreases peers.len(),
{
    if peers.len() == 0 {
        Seq::empty()
    } else {
        let head: Seq<Action> = if peers[0].1.ready && peers[0].1.rpc_can_send {
            seq![
                Action::TransitionFrontier(
                    TransitionFrontierAction::SyncLedger(
                        TransitionFrontierSyncLedgerAction::SnarkedLedgerSyncPeerQueryInit(
                            TransitionFrontierSyncLedgerSnarkedLedgerSyncPeerQueryInitAction {
                                address: addr,
                                peer_id: peers[0].0,
                            },
                        ),
                    ),
                ),
            ]
        } else {
            Seq::empty()
        };
        head + spec_peers_query_dispatches(peers.drop_first(), addr)
    }
}

impl TransitionFrontierSyncLedgerInitAction {
    /// Moves straight on to the fetch phase.
    pub fn effects(self, _state: &State, queue: &mut Vec<Action>)
        ensures
            final(queue)@ == old(queue)@ + seq![
                Action::TransitionFrontier(
                    TransitionFrontierAction::SyncLedger(
                        TransitionFrontierSyncLedgerAction::SnarkedLedgerSyncPending(
                            TransitionFrontierSyncLedgerSnarkedLedgerSyncPendingAction {},
                        ),
                    ),
                ),
            ],
    {
        let ghost pre = queue@;
        queue.push(
            Action::TransitionFrontier(
                TransitionFrontierAction::SyncLedger(
                    TransitionFrontierSyncLedgerAction::SnarkedLedgerSyncPending(
                        TransitionFrontierSyncLedgerSnarkedLedgerSyncPendingAction {},
                    ),
                ),
            ),
        );
        proof {
            assert(queue@ =~= pre + seq![
                Action::TransitionFrontier(
                    TransitionFrontierAction::SyncLedger(
                        TransitionFrontierSyncLedgerAction::SnarkedLedgerSyncPending(
                            TransitionFrontierSyncLedgerSnarkedLedgerSyncPendingAction {},
                        ),
                    ),
                ),
            ]);
        }
    }
}

impl TransitionFrontierSyncLedgerSnarkedLedgerSyncPendingAction {
    /// Kicks the first fan-out tick off.
    pub fn effects(self, _state: &State, queue: &mut Vec<Action>)
        ensures
            final(queue)@ == old(queue)@ + seq![
                Action::TransitionFrontier(
                    TransitionFrontierAction::SyncLedger(
                        TransitionFrontierSyncLedgerAction::SnarkedLedgerSyncPeersQuery(
                            TransitionFrontierSyncLedgerSnarkedLedgerSyncPeersQueryAction {},
                        ),
                    ),
                ),
            ],
    {
        let ghost pre = queue@;
        queue.push(
            Action::TransitionFrontier(
                TransitionFrontierAction::SyncLedger(
                    TransitionFrontierSyncLedgerAction::SnarkedLedgerSyncPeersQuery(
                        TransitionFrontierSyncLedgerSnarkedLedgerSyncPeersQueryAction {},
                    ),
                ),
            ),
        );
        proof {
            assert(queue@ =~= pre + seq![
                Action::TransitionFrontier(
                    TransitionFrontierAction::SyncLedger(
                        TransitionFrontierSyncLedgerAction::SnarkedLedgerSyncPeersQuery(
                            TransitionFrontierSyncLedgerSnarkedLedgerSyncPeersQueryAction {},
                        ),
                    ),
                ),
            ]);
        }
    }
}

impl TransitionFrontierSyncLedgerSnarkedLedgerSyncPeersQueryAction {
    /// Fans the address the walk stands on out to every ready peer whose
    /// RPC channel can take a request; without a pending walk, nothing is
    /// dispatched.
    pub fn effects(self, state: &State, queue: &mut Vec<Action>)
        ensures
            final(queue)@ == old(queue)@ + (match state.spec_root_ledger() {
                Some(rl) => match rl.spec_sync_next() {
                    Some(addr) => spec_peers_query_dispatches(state.p2p.peers@, addr),
                    None => Seq::<Action>::empty(),
                },
                None => Seq::<Action>::empty(),
            }),
    {
        let addr_opt: Option<LedgerAddress> = match &state.transition_frontier.sync {
            TransitionFrontierSyncState::RootLedgerSyncPending { root_ledger, .. } => {
                root_ledger.snarked_ledger_sync_next()
            },
            _ => None,
        };
        match addr_opt {
            None => {
                proof {
                    assert(queue@ =~= old(queue)@ + Seq::<Action>::empty());
                }
            },
            Some(addr) => {
                let ghost base = old(queue)@;
                let ghost peers = state.p2p.peers@;
                proof {
                    assert(peers.skip(0) =~= peers);
                }
                let n = state.p2p.peers.len();
                let mut i: usize = 0;
                while i < n
                    invariant
                        i <= n,
                        n == state.p2p.peers@.len(),
                        peers == state.p2p.peers@,
                        base + spec_peers_query_dispatches(peers, addr) == queue@
                            + spec_peers_query_dispatches(peers.skip(i as int), addr),
                    decreases n - i,
                {
                    proof {
                        assert(peers.skip(i as int)[0] == peers[i as int]);
                        assert(peers.skip(i as int).drop_first() =~= peers.skip(i + 1));
                    }
                    let entry = state.p2p.peers[i];
                    if entry.1.ready && entry.1.rpc_can_send {
                        let ghost preq = queue@;
                        queue.push(
                            Action::TransitionFrontier(
                                TransitionFrontierAction::SyncLedger(
                                    TransitionFrontierSyncLedgerAction::SnarkedLedgerSyncPeerQueryInit(
                                        TransitionFrontierSyncLedgerSnarkedLedgerSyncPeerQueryInitAction {
                                            address: addr,
                                            peer_id: entry.0,
                                        },
                                    ),
                                ),
                            ),
                        );
                        proof {
                            assert(queue@ =~= preq + seq![
                                Action::TransitionFrontier(
                                    TransitionFrontierAction::SyncLedger(
                                        TransitionFrontierSyncLedgerAction::SnarkedLedgerSyncPeerQueryInit(
                                            TransitionFrontierSyncLedgerSnarkedLedgerSyncPeerQueryInitAction {
                                                address: addr,
                                                peer_id: peers[i as int].0,
                                            },
                                        ),
                                    ),
                                ),
                            ]);
                            assert((preq + seq![
                                Action::TransitionFrontier(
                                    TransitionFrontierAction::SyncLedger(
                                        TransitionFrontierSyncLedgerAction::SnarkedLedgerSyncPeerQueryInit(
                                            TransitionFrontierSyncLedgerSnarkedLedgerSyncPeerQueryInitAction {
                                                address: addr,
                                                peer_id: peers[i as int].0,
                                            },
                                        ),
                                    ),
                                ),
                            ]) + spec_peers_query_dispatches(peers.skip(i + 1), addr) =~= preq
                                + spec_peers_query_dispatches(peers.skip(i as int), addr));
                        }
                    } else {
                        proof {
                            assert(queue@ + spec_peers_query_dispatches(peers.skip(i + 1), addr)
                                =~= queue@ + spec_peers_query_dispatches(
                                peers.skip(i as int),
                                addr,
                            ));
                        }
                    }
                    i = i + 1;
                }
                proof {
                    assert(peers.skip(n as int) =~= Seq::<(PeerId, crate::p2p::P2pPeer)>::empty());
                    assert(spec_peers_query_dispatches(peers.skip(n as int), addr)
                        =~= Seq::<Action>::empty());
                    assert(queue@ + Seq::<Action>::empty() =~= queue@);
                }
            },
        }
    }
}

impl TransitionFrontierSyncLedgerSnarkedLedgerSyncPeerQueryInitAction {
    /// Builds the wire query — contents at the deepest level, child
    /// hashes above — and sends it to the peer, marking the attempt as on
    /// the wire under the peer's next RPC id. Without a ready peer or a
    /// running sync, nothing is dispatched.
    pub fn effects(self, state: &State, queue: &mut Vec<Action>)
        requires
            state.wf(),
        ensures
            ({
                let ledger_opt = (match state.spec_root_ledger() {
                    Some(TransitionFrontierSyncLedgerState::SnarkedLedgerSyncPending {
                        block,
                        ..
                    }) => Some(block),
                    _ => None,
                });
                match (state.p2p.spec_get_ready_peer(self.peer_id), ledger_opt) {
                    (Some(p), Some(tip)) => {
                        p.rpc_can_send ==> final(queue)@ == old(queue)@ + seq![
                            Action::P2pChannelsRpcRequestSend(
                                P2pChannelsRpcRequestSendAction {
                                    peer_id: self.peer_id,
                                    id: p.next_local_rpc_id,
                                    request: P2pRpcRequest::LedgerQuery(
                                        tip,
                                        if self.address.length + 1 >= LEDGER_DEPTH {
                                            MinaLedgerSyncLedgerQuery::WhatContents(self.address)
                                        } else {
                                            MinaLedgerSyncLedgerQuery::WhatChildHashes(
                                                self.address,
                                            )
                                        },
                                    ),
                                },
                            ),
                            Action::TransitionFrontier(
                                TransitionFrontierAction::SyncLedger(
                                    TransitionFrontierSyncLedgerAction::SnarkedLedgerSyncPeerQueryPending(
                                        TransitionFrontierSyncLedgerSnarkedLedgerSyncPeerQueryPendingAction {
                                            address: self.address,
                                            peer_id: self.peer_id,
                                            rpc_id: p.next_local_rpc_id,
                                        },
                                    ),
                                ),
                            ),
                        ]
                    },
                    _ => final(queue)@ == old(queue)@,
                }
            }),
    {
        let ledger_opt: Option<u64> = match &state.transition_frontier.sync {
            TransitionFrontierSyncState::RootLedgerSyncPending { root_ledger, .. } => {
                match root_ledger {
                    TransitionFrontierSyncLedgerState::SnarkedLedgerSyncPending {
                        block,
                        ..
                    } => Some(*block),
                    _ => None,
                }
            },
            _ => None,
        };
        let peer_opt = state.p2p.get_ready_peer(self.peer_id);
        match (peer_opt, ledger_opt) {
            (Some(p), Some(tip)) => {
                if p.rpc_can_send {
                    let ghost base = old(queue)@;
                    let rpc_id = p.next_local_rpc_id;
                    let query = if self.address.length() >= LEDGER_DEPTH - 1 {
                        MinaLedgerSyncLedgerQuery::WhatContents(self.address)
                    } else {
                        MinaLedgerSyncLedgerQuery::WhatChildHashes(self.address)
                    };
                    queue.push(
                        Action::P2pChannelsRpcRequestSend(
                            P2pChannelsRpcRequestSendAction {
                                peer_id: self.peer_id,
                                id: rpc_id,
                                request: P2pRpcRequest::LedgerQuery(tip, query),
                            },
                        ),
                    );
                    let ghost mid = queue@;
                    queue.push(
                        Action::TransitionFrontier(
                            TransitionFrontierAction::SyncLedger(
                                TransitionFrontierSyncLedgerAction::SnarkedLedgerSyncPeerQueryPending(
                                    TransitionFrontierSyncLedgerSnarkedLedgerSyncPeerQueryPendingAction {
                                        address: self.address,
                                        peer_id: self.peer_id,
                                        rpc_id,
                                    },
                                ),
                            ),
                        ),
                    );
                    proof {
                        assert(queue@ =~= base + seq![
                            Action::P2pChannelsRpcRequestSend(
                                P2pChannelsRpcRequestSendAction {
                                    peer_id: self.peer_id,
                                    id: p.next_local_rpc_id,
                                    request: P2pRpcRequest::LedgerQuery(
                                        tip,
                                        if self.address.length + 1 >= LEDGER_DEPTH {
                                            MinaLedgerSyncLedgerQuery::WhatContents(self.address)
                                        } else {
                                            MinaLedgerSyncLedgerQuery::WhatChildHashes(
                                                self.address,
                                            )
                                        },
                                    ),
                                },
                            ),
                            Action::TransitionFrontier(
                                TransitionFrontierAction::SyncLedger(
                                    TransitionFrontierSyncLedgerAction::SnarkedLedgerSyncPeerQueryPending(
                                        TransitionFrontierSyncLedgerSnarkedLedgerSyncPeerQueryPendingAction {
                                            address: self.address,
                                            peer_id: self.peer_id,
                                            rpc_id: p.next_local_rpc_id,
                                        },
                                    ),
                                ),
                            ),
                        ]);
                    }
                }
            },
            _ => {},
        }
    }
}

impl TransitionFrontierSyncLedgerSnarkedLedgerSyncPeerQuerySuccessAction {
    /// Hands the response to the ledger — child hashes for an inner node,
    /// accounts near the leaves — then keeps the fan-out going while more
    /// addresses wait, or declares the fetch phase done.
    pub fn effects(self, state: &State, queue: &mut Vec<Action>)
        requires
            state.wf(),
        ensures
            final(queue)@.len() >= old(queue)@.len(),
            final(queue)@.take(old(queue)@.len() as int) == old(queue)@,
            ({
                let found = (match state.spec_root_ledger() {
                    Some(rl) => rl.spec_peer_query_get(self.peer_id, self.rpc_id),
                    None => None,
                });
                match found {
                    Some(addr) => {
                        &&& final(queue)@.len() == old(queue)@.len() + 2
                        &&& (match self.response {
                            PeerLedgerQueryResponse::ChildHashes(l, r) => final(queue)@[old(queue)@.len() as int] matches Action::Ledger(
                                crate::ledger::LedgerAction::ChildHashesAdd(h),
                            ) && h.parent == addr && h.left_hash == l && h.right_hash == r,
                            PeerLedgerQueryResponse::Accounts(accounts) => final(queue)@[old(queue)@.len() as int] matches Action::Ledger(
                                crate::ledger::LedgerAction::ChildAccountsAdd(h),
                            ) && h.parent == addr && h.accounts@ == accounts@,
                        })
                        &&& final(queue)@.last() == (if spec_sync_ledger_enabled(
                            *state,
                            TransitionFrontierSyncLedgerAction::SnarkedLedgerSyncPeersQuery(
                                TransitionFrontierSyncLedgerSnarkedLedgerSyncPeersQueryAction {},
                            ),
                        ) {
                            Action::TransitionFrontier(
                                TransitionFrontierAction::SyncLedger(
                                    TransitionFrontierSyncLedgerAction::SnarkedLedgerSyncPeersQuery(
                                        TransitionFrontierSyncLedgerSnarkedLedgerSyncPeersQueryAction {},
                                    ),
                                ),
                            )
                        } else {
                            Action::TransitionFrontier(
                                TransitionFrontierAction::SyncLedger(
                                    TransitionFrontierSyncLedgerAction::SnarkedLedgerSyncSuccess(
                                        TransitionFrontierSyncLedgerSnarkedLedgerSyncSuccessAction {},
                                    ),
                                ),
                            )
                        })
                    },
                    None => final(queue)@ == old(queue)@,
                }
            }),
    {
        let found: Option<LedgerAddress> = match &state.transition_frontier.sync {
            TransitionFrontierSyncState::RootLedgerSyncPending { root_ledger, .. } => {
                root_ledger.snarked_ledger_peer_query_get(self.peer_id, self.rpc_id)
            },
            _ => None,
        };
        match found {
            None => {},
            Some(addr) => {
                let ghost base = old(queue)@;
                match self.response {
                    PeerLedgerQueryResponse::ChildHashes(l, r) => {
                        queue.push(
                            Action::Ledger(
                                crate::ledger::LedgerAction::ChildHashesAdd(
                                    crate::ledger::LedgerChildHashesAddAction {
                                        ledger_id: 0,
                                        parent: addr,
                                        left_hash: l,
                                        right_hash: r,
                                    },
                                ),
                            ),
                        );
                    },
                    PeerLedgerQueryResponse::Accounts(accounts) => {
                        queue.push(
                            Action::Ledger(
                                crate::ledger::LedgerAction::ChildAccountsAdd(
                                    crate::ledger::LedgerChildAccountsAddAction {
                                        ledger_id: 0,
                                        parent: addr,
                                        accounts,
                                    },
                                ),
                            ),
                        );
                    },
                }
                let continue_query = check_wrapped_enabled(
                    state,
                    &TransitionFrontierSyncLedgerAction::SnarkedLedgerSyncPeersQuery(
                        TransitionFrontierSyncLedgerSnarkedLedgerSyncPeersQueryAction {},
                    ),
                );
                if continue_query {
                    queue.push(
                        Action::TransitionFrontier(
                            TransitionFrontierAction::SyncLedger(
                                TransitionFrontierSyncLedgerAction::SnarkedLedgerSyncPeersQuery(
                                    TransitionFrontierSyncLedgerSnarkedLedgerSyncPeersQueryAction {},
                                ),
                            ),
                        ),
                    );
                } else {
                    queue.push(
                        Action::TransitionFrontier(
                            TransitionFrontierAction::SyncLedger(
                                TransitionFrontierSyncLedgerAction::SnarkedLedgerSyncSuccess(
                                    TransitionFrontierSyncLedgerSnarkedLedgerSyncSuccessAction {},
                                ),
                            ),
                        ),
                    );
                }
                proof {
                    assert(queue@.take(base.len() as int) =~= base);
                }
            },
        }
    }
}

} // verus!
