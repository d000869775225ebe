//! Waiting for the block whose randomness a raffle is drawn from. The caller
//! asks the chain and reports what it saw; each report is answered with what
//! to do next.

use crate::error::BudgetError;
use crate::platform::Id;
use vstd::prelude::*;

verus! {

/// A raffle that waits for its randomness.
#[derive(Clone, Copy, Debug, PartialEq, Eq, Structural)]
pub struct RaffleWait {
    pub raffle_id: Id,
    /// The block at which the raffle was set up.
    pub initiation_block: u64,
    /// The block whose randomness the raffle is drawn from.
    pub target_block: u64,
    /// The latest block that the chain was seen at.
    pub last_observed_block: u64,
}

/// What the caller saw when it asked the chain for its current block.
#[derive(Clone, Copy, Debug, PartialEq, Eq, Structural)]
pub enum WaitEvent {
    Block(u64),
    OracleFailed,
}

/// What the caller is to do next.
#[derive(Clone, Copy, Debug, PartialEq, Eq, Structural)]
pub enum WaitAction {
    /// Pause, then ask the chain again.
    Pause,
    /// The chain has reached the target: read the randomness of this block
    /// and draw the raffle with it.
    ReadRandomness { block: u64 },
    /// Give up and report the failure.
    Fail(BudgetError),
}

impl RaffleWait {
    /// The wait that starts at `current_block` and ends `block_offset`
    /// blocks later, or `default_offset` blocks later where no offset is given.
    pub open spec fn spec_begin(
        raffle_id: Id,
        current_block: u64,
        block_offset: Option<u64>,
        default_offset: u64,
    ) -> Result<RaffleWait, BudgetError> {
        let offset = match block_offset {
            Some(blocks) => blocks,
            None => default_offset,
        };
        if current_block + offset > u64::MAX {
            Err(BudgetError::BlockNumberOverflow)
        } else {
            Ok(
                RaffleWait {
                    raffle_id,
                    initiation_block: current_block,
                    target_block: (current_block + offset) as u64,
                    last_observed_block: current_block,
                },
            )
        }
    }

    /// Starts the wait for the randomness of a raffle that was set up at `current_block`.
    pub fn begin(raffle_id: Id, current_block: u64, block_offset: Option<u64>, default_offset: u64) -> (made:
        Result<RaffleWait, BudgetError>)
        ensures
            made == Self::spec_begin(raffle_id, current_block, block_offset, default_offset),
    {
        let offset = match block_offset {
            Some(blocks) => blocks,
            None => default_offset,
        };
        if offset > u64::MAX - current_block {
            Err(BudgetError::BlockNumberOverflow)
        } else {
            Ok(
                RaffleWait {
                    raffle_id,
                    initiation_block: current_block,
                    target_block: current_block + offset,
                    last_observed_block: current_block,
                },
            )
        }
    }

    /// What to do once the chain was asked: pause while it is short of the
    /// target, read the randomness of the target once it has reached it,
    /// give up where the oracle failed.
    pub open spec fn spec_next(self, event: WaitEvent) -> (RaffleWait, WaitAction) {
        match event {
            WaitEvent::OracleFailed => (self, WaitAction::Fail(BudgetError::OracleFailure)),
            WaitEvent::Block(block) => (
                RaffleWait { last_observed_block: block, ..self },
                if block < self.target_block {
                    WaitAction::Pause
                } else {
                    WaitAction::ReadRandomness { block: self.target_block }
                },
            ),
        }
    }

    /// Takes what the caller saw and answers with what to do next.
    pub fn next(&mut self, event: WaitEvent) -> (action: WaitAction)
        ensures
            (*final(self), action) == old(self).spec_next(event),
    {
        match event {
            WaitEvent::OracleFailed => WaitAction::Fail(BudgetError::OracleFailure),
            WaitEvent::Block(block) => {
                self.last_observed_block = block;
                if block < self.target_block {
                    WaitAction::Pause
                } else {
                    WaitAction::ReadRandomness { block: self.target_block }
                }
            },
        }
    }

    /// Whether the block is another than the latest that was seen.
    pub fn is_news(&self, block: u64) -> (yes: bool)
        ensures
            yes == (block != self.last_observed_block),
    {
        block != self.last_observed_block
    }
}

/// The randomness is read from the target block only, and only once the
/// chain was seen at or past it; the target and the raffle never change.
pub proof fn law_wait_reads_target(wait: RaffleWait, event: WaitEvent)
    ensures
        wait.spec_next(event).0.target_block == wait.target_block,
        wait.spec_next(event).0.raffle_id == wait.raffle_id,
        wait.spec_next(event).0.initiation_block == wait.initiation_block,
        wait.spec_next(event).1 matches WaitAction::ReadRandomness { block } ==> {
            &&& block == wait.target_block
            &&& event matches WaitEvent::Block(seen) && seen >= wait.target_block
        },
{
}

} // verus!
