//! Core of a peer-to-peer blockchain node: the Yamux stream-multiplexing
//! session (frame codec, per-stream flow control, termination policy), the
//! deterministic action-dispatched state machine that owns every state
//! transition, and the ledger-sync peer-query coordinator.
//!
//! The library performs no I/O itself: it consumes events and emits intents.
//! Everything that touches sockets, clocks or subprocesses lives outside and
//! re-enters the state machine as an action.

pub mod event_source;
pub mod external_snark_worker;
pub mod genesis;
pub mod kad;
pub mod ledger;
pub mod p2p;
pub mod p2p_connection;
pub mod p2p_network;
pub mod rpc;
pub mod snark_pool;
pub mod state;
pub mod sync_ledger;
pub mod transition_frontier;
pub mod webrtc;
pub mod yamux;

use vstd::prelude::*;

verus! {

/// Transport-level address of a peer socket, reduced to a stable numeric
/// identifier: the core only compares addresses and keys tables by them.
pub type ConnectionAddr = u64;

/// Stable cryptographic identity of a peer, obtained after the handshake,
/// reduced to the numeric identifier the core keys its tables by.
pub type PeerId = u64;

/// Identifier of an in-flight RPC exchange.
pub type RpcId = u64;

/// Identifier of an RPC on a p2p channel.
pub type P2pRpcId = u64;

/// Monotonic timestamp in nanoseconds, attached to actions as metadata.
pub type Timestamp = u64;

/// Raw bytes handed to or received from the transport.
pub type Data = Vec<u8>;

} // verus!
