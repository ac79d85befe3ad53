//! The two argument sets the binaries accept, as plain data; the thin
//! command-line layer parses into these.

use vstd::prelude::*;
use crate::probe::RunConfig;

verus! {

/// The standalone tester's arguments: the two endpoint addresses, how many
/// blocks from the tip to test, and the optional categories.
pub struct CliArgs {
    /// RPC URL 1
    pub rpc1: String,
    /// RPC URL 2
    pub rpc2: String,
    /// Number of blocks to test from the tip.
    pub num_blocks: u64,
    /// Whether to query the vendor introspection namespace.
    pub use_reth: bool,
    /// Whether to query tracing methods.
    pub use_tracing: bool,
    /// Whether to probe every transaction of a block rather than only the
    /// first.
    pub use_all_txes: bool,
}

impl CliArgs {
    /// The run configuration these arguments denote.
    pub fn run_config(&self) -> (r: RunConfig)
        ensures
            r == (RunConfig {
                use_tracing: self.use_tracing,
                use_reth: self.use_reth,
                use_all_txes: self.use_all_txes,
            }),
    {
        RunConfig {
            use_tracing: self.use_tracing,
            use_reth: self.use_reth,
            use_all_txes: self.use_all_txes,
        }
    }
}

/// The node-embedded tester's arguments: the block source address, how
/// many blocks to collect before the tests, and the remote endpoint to
/// compare against, when any.
pub struct TestArgs {
    /// Overrides the chain's well-known block source address.
    pub etherscan_url: Option<String>,
    /// Collects this many blocks past the starting height, then stops.
    pub num_blocks: u64,
    /// Runs the equality tests against this endpoint after collecting.
    pub against_rpc: Option<String>,
}

} // verus!
