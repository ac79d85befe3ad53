//! The endpoint set under test: the two probed connections, the truth
//! connection that sources canonical data, and the run options.

use vstd::prelude::*;
use crate::probe::RunConfig;
use crate::run::{RangeRun, RunAction, RunActionV, RangeRunV, RunStateV, run_wf};

verus! {

/// Two RPC connections compared probe by probe, a designated truth
/// connection (one of the two, by default the second), and the options of
/// the run.
pub struct RpcTester<C> {
    /// First RPC node.
    pub rpc1: C,
    /// Second RPC node.
    pub rpc2: C,
    /// Source of truth. This may be one of the rpcs above for convenience
    /// reasons. (Public so that contracts can speak of it.)
    pub truth: C,
    /// Whether to query tracing methods.
    pub use_tracing: bool,
    /// Whether to query the vendor introspection namespace.
    pub use_reth: bool,
    /// Whether to probe every transaction of a block rather than only the
    /// first of each block.
    pub use_all_txes: bool,
}

impl<C> RpcTester<C> {
    /// The run configuration these options denote.
    pub open spec fn spec_config(&self) -> RunConfig {
        RunConfig {
            use_tracing: self.use_tracing,
            use_reth: self.use_reth,
            use_all_txes: self.use_all_txes,
        }
    }

    /// The designated truth connection.
    pub open spec fn spec_truth(&self) -> C {
        self.truth
    }

    /// Pairs the two connections; the second doubles as the truth source
    /// until one is designated, and every optional category starts
    /// disabled.
    pub fn new(rpc1: C, rpc2: C) -> (r: RpcTester<C>) where C: Clone
        ensures
            r.rpc1 == rpc1,
            r.spec_config() == (RunConfig {
                use_tracing: false,
                use_reth: false,
                use_all_txes: false,
            }),
    {
        let truth = rpc2.clone();
        RpcTester { use_tracing: false, use_reth: false, use_all_txes: false, rpc1, rpc2, truth }
    }

    /// Designates the source of truth for blocks and receipts.
    pub fn with_truth(self, truth: C) -> (r: RpcTester<C>)
        ensures
            r.rpc1 == self.rpc1,
            r.rpc2 == self.rpc2,
            r.spec_truth() == truth,
            r.spec_config() == self.spec_config(),
    {
        RpcTester { truth, ..self }
    }

    /// Enables or disables the tracing calls.
    pub fn with_tracing(self, is_enabled: bool) -> (r: RpcTester<C>)
        ensures
            r.rpc1 == self.rpc1,
            r.rpc2 == self.rpc2,
            r.spec_truth() == self.spec_truth(),
            r.spec_config() == (RunConfig { use_tracing: is_enabled, ..self.spec_config() }),
    {
        RpcTester { use_tracing: is_enabled, ..self }
    }

    /// Enables or disables the vendor introspection namespace.
    pub fn with_reth(self, is_enabled: bool) -> (r: RpcTester<C>)
        ensures
            r.rpc1 == self.rpc1,
            r.rpc2 == self.rpc2,
            r.spec_truth() == self.spec_truth(),
            r.spec_config() == (RunConfig { use_reth: is_enabled, ..self.spec_config() }),
    {
        RpcTester { use_reth: is_enabled, ..self }
    }

    /// Enables probing every transaction of a block rather than only the
    /// first.
    pub fn with_all_txes(self, is_enabled: bool) -> (r: RpcTester<C>)
        ensures
            r.rpc1 == self.rpc1,
            r.rpc2 == self.rpc2,
            r.spec_truth() == self.spec_truth(),
            r.spec_config() == (RunConfig { use_all_txes: is_enabled, ..self.spec_config() }),
    {
        RpcTester { use_all_txes: is_enabled, ..self }
    }

    /// The run configuration, as plain data.
    pub fn run_config(&self) -> (r: RunConfig)
        ensures
            r == self.spec_config(),
    {
        RunConfig {
            use_tracing: self.use_tracing,
            use_reth: self.use_reth,
            use_all_txes: self.use_all_txes,
        }
    }

    /// Borrows the truth connection, for the caller to fetch canonical
    /// data with.
    pub fn truth(&self) -> (r: &C)
        ensures
            r == self.spec_truth(),
    {
        &self.truth
    }

    /// Starts the equality run over the inclusive block range: per-block
    /// units ascending, the range unit last.
    pub fn start_equality(&self, start: u64, end: u64) -> (r: (RangeRun, RunAction))
        requires
            start <= end,
        ensures
            r.0@ == (RangeRunV {
                config: self.spec_config(),
                start,
                end,
                current: start,
                state: RunStateV::AwaitingBlock,
                units: Seq::empty(),
            }),
            r.1@ == (RunActionV::FetchBlock { number: start }),
            run_wf(r.0@),
    {
        RangeRun::new(self.run_config(), start, end)
    }
}

} // verus!
