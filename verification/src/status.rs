//! The chain-advancement decisions and the readiness gate: pure functions
//! from observed heights to the next action, and the status snapshot an
//! operator polls.

use vstd::prelude::*;

verus! {

/// The snapshot the status endpoint serves: whether chain advancement has
/// stopped, the starting height, the local tip, and the first block held
/// only in memory.
#[derive(Clone, Copy, PartialEq, Eq, Structural, Debug)]
pub struct TesterStatus {
    pub ready: bool,
    pub initial_height: u64,
    pub tip: u64,
    pub in_memory_first: u64,
}

impl Default for TesterStatus {
    /// The snapshot before anything has happened.
    fn default() -> (r: TesterStatus)
        ensures
            r == (TesterStatus { ready: false, initial_height: 0, tip: 0, in_memory_first: 0 }),
    {
        TesterStatus { ready: false, initial_height: 0, tip: 0, in_memory_first: 0 }
    }
}

/// What the chain-advancement loop does next: stop advancing (optionally
/// handing the caller the block range to run the equality tests over),
/// submit the next block, or only wait and poll again.
#[derive(Clone, Copy, PartialEq, Eq, Structural, Debug)]
pub enum AdvanceAction {
    Stop,
    StopAndTest { start: u64, end: u64 },
    Advance { next: u64 },
    Wait,
}

/// One iteration of the chain-advancement loop, as a pure decision: the
/// fresh status snapshot, and the action to take. Advancement stops once
/// `num_blocks` blocks were collected past the starting height; before
/// that the chain advances one block whenever the remote source is ahead.
/// When the tests are requested, the tested range reaches from two blocks
/// below the last flush to the local tip.
pub fn advance_step(
    local_tip: u64,
    etherscan_tip: u64,
    storage_tip: u64,
    initial_height: u64,
    num_blocks: u64,
    against_rpc: bool,
) -> (r: (TesterStatus, AdvanceAction))
    requires
        initial_height + num_blocks <= u64::MAX,
        storage_tip < u64::MAX,
        local_tip < u64::MAX,
        against_rpc && local_tip >= initial_height + num_blocks ==> 2 <= storage_tip
            && storage_tip - 2 <= local_tip,
    ensures
        r.0 == (TesterStatus {
            ready: local_tip >= initial_height + num_blocks,
            initial_height,
            tip: local_tip,
            in_memory_first: (storage_tip + 1) as u64,
        }),
        r.1 == if local_tip >= initial_height + num_blocks {
            if against_rpc {
                AdvanceAction::StopAndTest { start: (storage_tip - 2) as u64, end: local_tip }
            } else {
                AdvanceAction::Stop
            }
        } else if local_tip < etherscan_tip {
            AdvanceAction::Advance { next: (local_tip + 1) as u64 }
        } else {
            AdvanceAction::Wait
        },
{
    let done = local_tip >= initial_height + num_blocks;
    let status = TesterStatus {
        ready: done,
        initial_height,
        tip: local_tip,
        in_memory_first: storage_tip + 1,
    };
    let action = if done {
        if against_rpc {
            AdvanceAction::StopAndTest { start: storage_tip - 2, end: local_tip }
        } else {
            AdvanceAction::Stop
        }
    } else if local_tip < etherscan_tip {
        AdvanceAction::Advance { next: local_tip + 1 }
    } else {
        AdvanceAction::Wait
    };
    (status, action)
}

/// What the readiness gate does next: wait and poll again, or test this
/// inclusive block range.
#[derive(Clone, Copy, PartialEq, Eq, Structural, Debug)]
pub enum Readiness {
    Wait,
    Range { start: u64, end: u64 },
}

/// One poll of the readiness gate, as a pure decision: while the first
/// endpoint is still syncing, or trails the second by more than five
/// blocks, wait; otherwise test the `num_blocks` blocks up to the second
/// endpoint's tip.
pub fn readiness_step(syncing: bool, tip1: u64, tip2: u64, num_blocks: u64) -> (r: Readiness)
    requires
        num_blocks <= tip2,
    ensures
        r == if !syncing && (tip1 >= tip2 || tip2 - tip1 <= 5) {
            Readiness::Range { start: (tip2 - num_blocks) as u64, end: tip2 }
        } else {
            Readiness::Wait
        },
{
    if syncing {
        return Readiness::Wait;
    }
    if tip1 >= tip2 || tip2 - tip1 <= 5 {
        Readiness::Range { start: tip2 - num_blocks, end: tip2 }
    } else {
        Readiness::Wait
    }
}

/// Picks the remote block source's address: the explicitly provided one
/// wins, else the chain's well-known one; without either the run cannot
/// start.
pub fn choose_etherscan_url(provided: Option<String>, chain_default: Option<String>, chain: &str)
    -> (r: Result<String, String>)
    ensures
        match (provided, chain_default) {
            (Some(u), _) => r == Ok::<String, String>(u),
            (None, Some(d)) => r == Ok::<String, String>(d),
            (None, None) => r is Err && r->Err_0@ == "failed to get etherscan url for chain: "@
                + chain@,
        },
{
    match provided {
        Some(u) => Ok(u),
        None => match chain_default {
            Some(d) => Ok(d),
            None => {
                let mut m = String::from_str("failed to get etherscan url for chain: ");
                m.append(chain);
                Err(m)
            },
        },
    }
}

/// Requires the chain's block-source API key to be configured; without it
/// the run cannot start.
pub fn require_api_key(key: Option<String>, chain: &str) -> (r: Result<String, String>)
    ensures
        match key {
            Some(k) => r == Ok::<String, String>(k),
            None => r is Err && r->Err_0@
                == "etherscan api key not found for rpc consensus client for chain: "@ + chain@,
        },
{
    match key {
        Some(k) => Ok(k),
        None => {
            let mut m = String::from_str(
                "etherscan api key not found for rpc consensus client for chain: ",
            );
            m.append(chain);
            Err(m)
        },
    }
}

} // verus!
