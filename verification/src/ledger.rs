//! Addressing into the Merkle-ized accounts ledger: a node is named by its
//! depth and its index within that depth.

use vstd::prelude::*;

verus! {

/// Depth of the accounts ledger tree; nodes at `LEDGER_DEPTH - 1` or below
/// are queried for contents rather than child hashes.
pub const LEDGER_DEPTH: u64 = 35;

/// Address of one node of the ledger tree.
#[derive(Clone, Copy, Debug, PartialEq, Eq, Structural)]
pub struct LedgerAddress {
    /// Depth of the node; the root has length 0.
    pub length: u64,
    /// Index of the node within its depth, counted from the left.
    pub index: u64,
}

impl LedgerAddress {
    /// The root of the tree.
    pub fn root() -> (r: LedgerAddress)
        ensures
            r == (LedgerAddress { length: 0, index: 0 }),
    {
        LedgerAddress { length: 0, index: 0 }
    }

    /// Depth of the node.
    pub fn length(&self) -> (r: u64)
        ensures
            r == self.length,
    {
        self.length
    }

    /// Index of the node within its depth.
    pub fn to_index(&self) -> (r: u64)
        ensures
            r == self.index,
    {
        self.index
    }
}

/// The number of nodes at a depth: 2^length.
pub open spec fn spec_width_at(length: u64) -> u64
    recommends
        length < 64,
{
    1u64 << length
}

/// The address fetched after `a`, walking the tree breadth first; `None`
/// once the deepest queried level is exhausted.
pub open spec fn spec_next_addr(a: LedgerAddress) -> Option<LedgerAddress> {
    if a.index + 1 < spec_width_at(a.length) {
        Some(LedgerAddress { length: a.length, index: (a.index + 1) as u64 })
    } else if a.length + 1 < LEDGER_DEPTH {
        Some(LedgerAddress { length: (a.length + 1) as u64, index: 0 })
    } else {
        None
    }
}

/// The executable successor of an address, matching `spec_next_addr`.
pub fn next_addr(a: LedgerAddress) -> (r: Option<LedgerAddress>)
    requires
        a.length < LEDGER_DEPTH,
    ensures
        r == spec_next_addr(a),
{
    let w: u64 = 1u64 << a.length;
    proof {
        let l = a.length;
        assert(1u64 << l >= 1u64) by (bit_vector)
            requires
                l < 64u64,
        ;
    }
    if a.index < w - 1 {
        Some(LedgerAddress { length: a.length, index: a.index + 1 })
    } else {
        if a.length + 1 < LEDGER_DEPTH {
            Some(LedgerAddress { length: a.length + 1, index: 0 })
        } else {
            None
        }
    }
}

/// Adds the two child hashes a peer reported for an inner node.
#[derive(Clone, Copy, Debug, PartialEq, Eq, Structural)]
pub struct LedgerChildHashesAddAction {
    pub ledger_id: u64,
    pub parent: LedgerAddress,
    pub left_hash: u64,
    pub right_hash: u64,
}

/// Adds the accounts a peer reported for a subtree near the leaves.
#[derive(Clone, Debug, PartialEq)]
pub struct LedgerChildAccountsAddAction {
    pub ledger_id: u64,
    pub parent: LedgerAddress,
    pub accounts: Vec<u64>,
}

/// Work handed to the ledger service.
#[derive(Clone, Debug, PartialEq)]
pub enum LedgerAction {
    ChildHashesAdd(LedgerChildHashesAddAction),
    ChildAccountsAdd(LedgerChildAccountsAddAction),
}

} // verus!
