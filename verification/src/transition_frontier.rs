//! The transition frontier's sync state: setting a sync run up and
//! delegating to the root-ledger sync machine.

use vstd::prelude::*;

use crate::sync_ledger::{TransitionFrontierSyncLedgerAction, TransitionFrontierSyncLedgerState};
use crate::Timestamp;

verus! {

/// Where the frontier stands with syncing to a new best tip.
#[derive(Clone, Debug, PartialEq)]
pub enum TransitionFrontierSyncState {
    /// Nothing to sync.
    Idle,
    /// A sync target was chosen but fetching has not started.
    Init { time: Timestamp, best_tip: u64, root_block: u64, missing_blocks: Vec<u64> },
    /// The root ledger is being synchronized.
    RootLedgerSyncPending {
        time: Timestamp,
        best_tip: u64,
        root_ledger: TransitionFrontierSyncLedgerState,
        missing_blocks: Vec<u64>,
    },
}

impl TransitionFrontierSyncState {
    /// The root-ledger sync state, while that stage runs.
    pub open spec fn spec_root_ledger(&self) -> Option<TransitionFrontierSyncLedgerState> {
        match self {
            TransitionFrontierSyncState::RootLedgerSyncPending { root_ledger, .. } => Some(
                *root_ledger,
            ),
            _ => None,
        }
    }
}

/// Chooses a new sync target.
#[derive(Clone, Debug, PartialEq)]
pub struct TransitionFrontierSyncInitAction {
    pub best_tip: u64,
    pub root_block: u64,
    pub blocks_inbetween: Vec<u64>,
}

/// Enters the root-ledger sync stage.
#[derive(Clone, Copy, Debug, PartialEq, Eq, Structural)]
pub struct TransitionFrontierRootLedgerSyncPendingAction {}

/// Everything that can happen to the transition frontier.
#[derive(Clone, Debug, PartialEq)]
pub enum TransitionFrontierAction {
    SyncInit(TransitionFrontierSyncInitAction),
    RootLedgerSyncPending(TransitionFrontierRootLedgerSyncPendingAction),
    SyncLedger(TransitionFrontierSyncLedgerAction),
}

/// The transition frontier's state.
#[derive(Clone, Debug, PartialEq)]
pub struct TransitionFrontierState {
    pub sync: TransitionFrontierSyncState,
}

impl TransitionFrontierState {
    pub open spec fn wf(&self) -> bool {
        match self.sync {
            TransitionFrontierSyncState::RootLedgerSyncPending { root_ledger, .. } => {
                root_ledger.wf()
            },
            _ => true,
        }
    }

    pub fn new() -> (r: TransitionFrontierState)
        ensures
            r.sync == TransitionFrontierSyncState::Idle,
            r.wf(),
    {
        TransitionFrontierState { sync: TransitionFrontierSyncState::Idle }
    }

    /// Applies one frontier action: a sync-init replaces the sync target
    /// wholesale, the root-ledger-pending step moves an initialized sync
    /// into the root-ledger stage, and ledger-sync actions are delegated
    /// to the root-ledger machine while that stage runs.
    pub fn reducer(&mut self, action: &TransitionFrontierAction, time: Timestamp)
        requires
            old(self).wf(),
        ensures
            final(self).wf(),
            spec_tf_step(*old(self), *final(self), *action, time),
    {
        match action {
            TransitionFrontierAction::SyncInit(a) => {
                self.sync = TransitionFrontierSyncState::Init {
                    time,
                    best_tip: a.best_tip,
                    root_block: a.root_block,
                    missing_blocks: clone_ids(&a.blocks_inbetween),
                };
            },
            TransitionFrontierAction::RootLedgerSyncPending(_) => {
                let mut info: Option<(u64, u64, Vec<u64>)> = None;
                match &self.sync {
                    TransitionFrontierSyncState::Init {
                        best_tip,
                        root_block,
                        missing_blocks,
                        ..
                    } => {
                        info = Some((*best_tip, *root_block, clone_ids(missing_blocks)));
                    },
                    _ => {},
                }
                match info {
                    Some((bt, rb, mb)) => {
                        self.sync = TransitionFrontierSyncState::RootLedgerSyncPending {
                            time,
                            best_tip: bt,
                            root_ledger: TransitionFrontierSyncLedgerState::Init {
                                time,
                                block: rb,
                            },
                            missing_blocks: mb,
                        };
                    },
                    None => {},
                }
            },
            TransitionFrontierAction::SyncLedger(a) => {
                match &mut self.sync {
                    TransitionFrontierSyncState::RootLedgerSyncPending { root_ledger, .. } => {
                        root_ledger.reducer(a, time);
                    },
                    _ => {},
                }
            },
        }
    }
}

/// How the transition frontier steps under one action.
pub open spec fn spec_tf_step(
    pre: TransitionFrontierState,
    post: TransitionFrontierState,
    action: TransitionFrontierAction,
    time: Timestamp,
) -> bool {
    match action {
        TransitionFrontierAction::SyncInit(a) => (post.sync matches TransitionFrontierSyncState::Init {
            time: t,
            best_tip,
            root_block,
            missing_blocks,
        } && t == time && best_tip == a.best_tip && root_block == a.root_block
            && missing_blocks@ == a.blocks_inbetween@),
        TransitionFrontierAction::RootLedgerSyncPending(_) => {
            match pre.sync {
                TransitionFrontierSyncState::Init {
                    best_tip: bt0,
                    root_block: rb0,
                    missing_blocks: mb0,
                    ..
                } => (post.sync matches TransitionFrontierSyncState::RootLedgerSyncPending {
                    time: t,
                    best_tip,
                    root_ledger,
                    missing_blocks,
                } && t == time && best_tip == bt0 && missing_blocks@ == mb0@ && root_ledger
                    == (TransitionFrontierSyncLedgerState::Init { time, block: rb0 })),
                _ => post == pre,
            }
        },
        TransitionFrontierAction::SyncLedger(a) => {
            match pre.sync {
                TransitionFrontierSyncState::RootLedgerSyncPending {
                    time: t0,
                    best_tip: bt0,
                    root_ledger: rl0,
                    missing_blocks: mb0,
                } => (post.sync matches TransitionFrontierSyncState::RootLedgerSyncPending {
                    time: t1,
                    best_tip: bt1,
                    root_ledger: rl1,
                    missing_blocks: mb1,
                } && t1 == t0 && bt1 == bt0 && mb1@ == mb0@
                    && crate::sync_ledger::spec_sync_ledger_step(rl0, rl1, a, time)),
                _ => post == pre,
            }
        },
    }
}

/// Copies a list of block identifiers.
fn clone_ids(v: &Vec<u64>) -> (r: Vec<u64>)
    ensures
        r@ == v@,
{
    let mut out: Vec<u64> = Vec::new();
    let n = v.len();
    let mut i: usize = 0;
    while i < n
        invariant
            i <= n,
            n == v@.len(),
            out@ =~= v@.take(i as int),
        decreases n - i,
    {
        out.push(v[i]);
        i = i + 1;
    }
    proof {
        assert(v@.take(n as int) =~= v@);
    }
    out
}

} // verus!
