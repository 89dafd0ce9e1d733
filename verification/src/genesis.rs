//! Genesis bootstrapping intents: loading the genesis ledger and proving
//! the genesis block are outside work; the loop only decides what to ask
//! for.

use vstd::prelude::*;

verus! {

/// Effectful genesis work the loop can request.
#[derive(Clone, Copy, Debug, PartialEq, Eq, Structural)]
pub enum TransitionFrontierGenesisEffectfulAction {
    /// Load the genesis ledger described by a configuration.
    LedgerLoadInit { config: u64 },
    /// Prove the genesis block.
    ProveInit { block_hash: u64, input: u64 },
}

/// A command for the genesis service.
#[derive(Clone, Copy, Debug, PartialEq, Eq, Structural)]
pub enum GenesisCommand {
    LoadGenesis { config: u64 },
    Prove { block_hash: u64, input: u64 },
}

impl TransitionFrontierGenesisEffectfulAction {
    /// Each genesis action asks the service for exactly its work.
    pub fn effects(&self, commands: &mut Vec<GenesisCommand>)
        ensures
            final(commands)@ == old(commands)@ + seq![
                match *self {
                    TransitionFrontierGenesisEffectfulAction::LedgerLoadInit { config } => {
                        GenesisCommand::LoadGenesis { config }
                    },
                    TransitionFrontierGenesisEffectfulAction::ProveInit {
                        block_hash,
                        input,
                    } => GenesisCommand::Prove { block_hash, input },
                },
            ],
    {
        let ghost pre = commands@;
        match self {
            TransitionFrontierGenesisEffectfulAction::LedgerLoadInit { config } => {
                commands.push(GenesisCommand::LoadGenesis { config: *config });
            },
            TransitionFrontierGenesisEffectfulAction::ProveInit { block_hash, input } => {
                commands.push(
                    GenesisCommand::Prove { block_hash: *block_hash, input: *input },
                );
            },
        }
        proof {
            assert(commands@ =~= pre + seq![commands@.last()]);
        }
    }
}

} // verus!
