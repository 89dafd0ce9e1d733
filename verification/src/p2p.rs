//! Peer table seen by the coordinator: which peers are ready and whether
//! their RPC channel can take another request.

use vstd::prelude::*;

use crate::ledger::LedgerAddress;
use crate::{P2pRpcId, PeerId};

verus! {

/// One peer as the coordinator sees it.
#[derive(Clone, Copy, Debug, PartialEq, Eq, Structural)]
pub struct P2pPeer {
    /// Fully connected and usable.
    pub ready: bool,
    /// The RPC channel can accept one more outgoing request.
    pub rpc_can_send: bool,
    /// The id the next locally initiated RPC will get.
    pub next_local_rpc_id: P2pRpcId,
}

/// The peer table, keyed by peer identity, keys unique.
#[derive(Clone, Debug, PartialEq)]
pub struct P2pState {
    pub peers: Vec<(PeerId, P2pPeer)>,
}

/// The peer a table records under an identity: the last entry wins,
/// though a well-formed table has no duplicates.
pub open spec fn spec_peer_of(s: Seq<(PeerId, P2pPeer)>, id: PeerId) -> Option<P2pPeer>
    decreases s.len(),
{
    if s.len() == 0 {
        None
    } else if s.last().0 == id {
        Some(s.last().1)
    } else {
        spec_peer_of(s.drop_last(), id)
    }
}

impl P2pState {
    /// No peer identity occurs twice.
    pub open spec fn wf(&self) -> bool {
        forall|i: int, j: int|
            0 <= i < j < self.peers@.len() ==> (#[trigger] self.peers@[i]).0 != (
            #[trigger] self.peers@[j]).0
    }

    /// Whether some ready peer's RPC channel can take a request.
    pub open spec fn spec_any_ready_can_send(&self) -> bool {
        exists|i: int|
            0 <= i < self.peers@.len() && (#[trigger] self.peers@[i]).1.ready
                && self.peers@[i].1.rpc_can_send
    }

    /// The peer under this identity, provided it is ready.
    pub open spec fn spec_get_ready_peer(&self, id: PeerId) -> Option<P2pPeer> {
        match spec_peer_of(self.peers@, id) {
            Some(p) => if p.ready {
                Some(p)
            } else {
                None
            },
            None => None,
        }
    }

    pub fn new() -> (r: P2pState)
        ensures
            r.wf(),
            r.peers@.len() == 0,
    {
        P2pState { peers: Vec::new() }
    }

    /// Whether any ready peer can accept an RPC request right now.
    pub fn any_ready_peer_can_send(&self) -> (r: bool)
        ensures
            r == self.spec_any_ready_can_send(),
    {
        let n = self.peers.len();
        let mut i: usize = 0;
        while i < n
            invariant
                i <= n,
                n == self.peers@.len(),
                forall|j: int|
                    0 <= j < i ==> !((#[trigger] self.peers@[j]).1.ready
                        && self.peers@[j].1.rpc_can_send),
            decreases n - i,
        {
            if self.peers[i].1.ready && self.peers[i].1.rpc_can_send {
                return true;
            }
            i = i + 1;
        }
        false
    }

    /// The peer under this identity, provided it is ready.
    pub fn get_ready_peer(&self, id: PeerId) -> (r: Option<P2pPeer>)
        requires
            self.wf(),
        ensures
            r == self.spec_get_ready_peer(id),
    {
        let n = self.peers.len();
        let mut i: usize = 0;
        while i < n
            invariant
                i <= n,
                n == self.peers@.len(),
                self.wf(),
                forall|j: int| 0 <= j < i ==> (#[trigger] self.peers@[j]).0 != id,
            decreases n - i,
        {
            if self.peers[i].0 == id {
                proof {
                    lemma_peer_of_unique(self.peers@, i as int);
                }
                let p = self.peers[i].1;
                if p.ready {
                    return Some(p);
                } else {
                    return None;
                }
            }
            i = i + 1;
        }
        proof {
            lemma_peer_of_absent(self.peers@, id);
        }
        None
    }

    /// Registers or replaces a peer.
    pub fn upsert_peer(&mut self, id: PeerId, peer: P2pPeer)
        requires
            old(self).wf(),
        ensures
            final(self).wf(),
            forall|q: PeerId| spec_peer_of(final(self).peers@, q) == (if q == id {
                Some(peer)
            } else {
                spec_peer_of(old(self).peers@, q)
            }),
    {
        let n = self.peers.len();
        let mut i: usize = 0;
        while i < n
            invariant
                i <= n,
                n == self.peers@.len(),
                self == old(self),
                old(self).wf(),
                forall|j: int| 0 <= j < i ==> (#[trigger] self.peers@[j]).0 != id,
            decreases n - i,
        {
            if self.peers[i].0 == id {
                let ghost pre = self.peers@;
                self.peers.set(i, (id, peer));
                proof {
                    assert(self.peers@ =~= pre.update(i as int, (id, peer)));
                    assert forall|q: PeerId| spec_peer_of(self.peers@, q) == (if q == id {
                        Some(peer)
                    } else {
                        spec_peer_of(pre, q)
                    }) by {
                        lemma_peer_of_update(pre, i as int, id, peer, q);
                    }
                }
                return ;
            }
            i = i + 1;
        }
        let ghost pre = self.peers@;
        self.peers.push((id, peer));
        proof {
            assert(self.peers@.drop_last() =~= pre);
        }
    }
}

/// In a table whose entries all avoid `id`, no peer is on record.
pub proof fn lemma_peer_of_absent(s: Seq<(PeerId, P2pPeer)>, id: PeerId)
    requires
        forall|j: int| 0 <= j < s.len() ==> (#[trigger] s[j]).0 != id,
    ensures
        spec_peer_of(s, id) is None,
    decreases s.len(),
{
    if s.len() > 0 {
        lemma_peer_of_absent(s.drop_last(), id);
    }
}

/// With unique identities, the peer on record is the one at its entry.
pub proof fn lemma_peer_of_unique(s: Seq<(PeerId, P2pPeer)>, k: int)
    requires
        0 <= k < s.len(),
        forall|i: int, j: int| 0 <= i < j < s.len() ==> (#[trigger] s[i]).0 != (#[trigger] s[j]).0,
    ensures
        spec_peer_of(s, s[k].0) == Some(s[k].1),
    decreases s.len(),
{
    if k < s.len() - 1 {
        lemma_peer_of_unique(s.drop_last(), k);
    }
}

/// Updating the unique entry of an identity changes that peer and nobody
/// else.
pub proof fn lemma_peer_of_update(s: Seq<(PeerId, P2pPeer)>, k: int, id: PeerId, p: P2pPeer, q: PeerId)
    requires
        0 <= k < s.len(),
        forall|i: int, j: int| 0 <= i < j < s.len() ==> (#[trigger] s[i]).0 != (#[trigger] s[j]).0,
        s[k].0 == id,
    ensures
        spec_peer_of(s.update(k, (id, p)), q) == (if q == id {
            Some(p)
        } else {
            spec_peer_of(s, q)
        }),
    decreases s.len(),
{
    let s2 = s.update(k, (id, p));
    if k == s.len() - 1 {
        assert(s2.drop_last() =~= s.drop_last());
        if q != id {
            assert(spec_peer_of(s2, q) == spec_peer_of(s.drop_last(), q));
        }
    } else {
        assert(s2.drop_last() =~= s.drop_last().update(k, (id, p)));
        assert(s2.last() == s.last());
        lemma_peer_of_update(s.drop_last(), k, id, p, q);
        if q == id {
            assert(s.last().0 != id);
        }
    }
}

/// A ledger query as it travels to a peer: contents at the leaves, child
/// hashes at inner nodes.
#[derive(Clone, Copy, Debug, PartialEq, Eq, Structural)]
pub enum MinaLedgerSyncLedgerQuery {
    WhatChildHashes(LedgerAddress),
    WhatContents(LedgerAddress),
}

/// A request sent over a peer's RPC channel.
#[derive(Clone, Copy, Debug, PartialEq, Eq, Structural)]
pub enum P2pRpcRequest {
    /// Query a ledger, named by its root hash, at one tree address.
    LedgerQuery(u64, MinaLedgerSyncLedgerQuery),
}

/// Sends a request on a peer's RPC channel.
#[derive(Clone, Copy, Debug, PartialEq, Eq, Structural)]
pub struct P2pChannelsRpcRequestSendAction {
    pub peer_id: PeerId,
    pub id: P2pRpcId,
    pub request: P2pRpcRequest,
}

} // verus!
