//! Decisions around the external snark-worker subprocess: what to start,
//! kill or submit. The subprocess itself is an outside collaborator; the
//! loop hands it commands and consumes its results as fresh actions.

use vstd::prelude::*;

use crate::snark_pool::{OneOrTwo, SnarkJobId, SnarkPoolState};
use crate::state::Action;

verus! {

/// Everything the worker lifecycle can be asked to do or can report.
#[derive(Clone, Copy, Debug, PartialEq, Eq, Structural)]
pub enum ExternalSnarkWorkerAction {
    Start,
    Started,
    Kill,
    Killed,
    Error { error: u64 },
    SubmitWork { job_id: SnarkJobId },
    WorkResult { result: u64 },
    WorkError { error: u64 },
    PruneWork,
}

/// A command for the subprocess runner.
#[derive(Clone, Copy, Debug, PartialEq, Eq, Structural)]
pub enum ExternalSnarkWorkerCommand {
    /// Launch the worker binary named by the configuration.
    Start { path: u64 },
    /// Stop the worker.
    Kill,
    /// Hand the worker one piece of work, priced and attributed.
    Submit { job: OneOrTwo<u64>, public_key: u64, fee: u64 },
}

/// Worker configuration: the binary, the price and the attribution of
/// produced work.
#[derive(Clone, Copy, Debug, PartialEq, Eq, Structural)]
pub struct ExternalSnarkWorkerConfig {
    pub path: Option<u64>,
    pub public_key: u64,
    pub fee: u64,
}

/// Maps one worker action to the command it issues and the follow-up
/// actions it dispatches: a start launches the configured binary if one
/// is configured, a kill stops the worker, a submission prices the job
/// found in the pool (a job no longer pooled submits nothing), and a
/// result or error of finished work prunes the pool.
pub fn external_snark_worker_effects(
    config: &ExternalSnarkWorkerConfig,
    snark_pool: &SnarkPoolState,
    action: &ExternalSnarkWorkerAction,
    commands: &mut Vec<ExternalSnarkWorkerCommand>,
    queue: &mut Vec<Action>,
)
    requires
        snark_pool.wf(),
    ensures
        final(commands)@ == old(commands)@ + (match *action {
            ExternalSnarkWorkerAction::Start => match config.path {
                Some(path) => seq![ExternalSnarkWorkerCommand::Start { path }],
                None => Seq::<ExternalSnarkWorkerCommand>::empty(),
            },
            ExternalSnarkWorkerAction::Kill => seq![ExternalSnarkWorkerCommand::Kill],
            ExternalSnarkWorkerAction::SubmitWork { job_id } => match snark_pool.spec_get(job_id) {
                Some(job) => seq![
                    ExternalSnarkWorkerCommand::Submit {
                        job: job.job,
                        public_key: config.public_key,
                        fee: config.fee,
                    },
                ],
                None => Seq::<ExternalSnarkWorkerCommand>::empty(),
            },
            _ => Seq::<ExternalSnarkWorkerCommand>::empty(),
        }),
        final(queue)@ == old(queue)@ + (match *action {
            ExternalSnarkWorkerAction::WorkResult { .. } => seq![
                Action::ExternalSnarkWorkerPruneWork,
            ],
            ExternalSnarkWorkerAction::WorkError { .. } => seq![
                Action::ExternalSnarkWorkerPruneWork,
            ],
            _ => Seq::<Action>::empty(),
        }),
{
    let ghost basec = old(commands)@;
    let ghost baseq = old(queue)@;
    match action {
        ExternalSnarkWorkerAction::Start => {
            match config.path {
                Some(path) => {
                    commands.push(ExternalSnarkWorkerCommand::Start { path });
                    proof {
                        assert(commands@ =~= basec + seq![
                            ExternalSnarkWorkerCommand::Start { path },
                        ]);
                    }
                },
                None => {},
            }
        },
        ExternalSnarkWorkerAction::Kill => {
            commands.push(ExternalSnarkWorkerCommand::Kill);
            proof {
                assert(commands@ =~= basec + seq![ExternalSnarkWorkerCommand::Kill]);
            }
        },
        ExternalSnarkWorkerAction::SubmitWork { job_id } => {
            match snark_pool.get(*job_id) {
                Some(job) => {
                    let cmd = ExternalSnarkWorkerCommand::Submit {
                        job: job.job,
                        public_key: config.public_key,
                        fee: config.fee,
                    };
                    commands.push(cmd);
                    proof {
                        assert(commands@ =~= basec + seq![cmd]);
                    }
                },
                None => {},
            }
        },
        ExternalSnarkWorkerAction::WorkResult { .. } => {
            queue.push(Action::ExternalSnarkWorkerPruneWork);
            proof {
                assert(queue@ =~= baseq + seq![Action::ExternalSnarkWorkerPruneWork]);
            }
        },
        ExternalSnarkWorkerAction::WorkError { .. } => {
            queue.push(Action::ExternalSnarkWorkerPruneWork);
            proof {
                assert(queue@ =~= baseq + seq![Action::ExternalSnarkWorkerPruneWork]);
            }
        },
        _ => {},
    }
}

} // verus!
