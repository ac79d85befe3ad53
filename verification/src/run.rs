//! The range aggregator: a state machine that drives the block unit
//! builder and the differential executor across a block range and
//! assembles the report. The caller performs the remote calls it asks
//! for and hands their results back as events.

use vstd::prelude::*;
use crate::json::{Json, JsonV};
use crate::context::{
    TxBasic, TxBasicV, TxContext, TxContextV, BlockContext, BlockContextV, spec_parse_block,
    spec_parse_receipt, tx_basics_view,
};
use crate::probe::{
    ProbeCall, ProbeCallV, RunConfig, calls_view, spec_enabled, spec_block_catalog,
    spec_range_catalog, category_enabled,
};
use crate::outcome::{ProbeOutcome, OutcomeV, spec_outcome, call_view};
use crate::report::{TestUnit, TestUnitV, outcomes_view, units_view};
use crate::text::spec_dec;

verus! {

/// Where the run stands: what reply it waits for next, or how it ended.
pub enum RunState {
    AwaitingBlock,
    AwaitingReceipts { hash: String, txs: Vec<TxBasic> },
    AwaitingOutcomes { catalog: Vec<ProbeCall> },
    AwaitingRangeOutcomes { catalog: Vec<ProbeCall> },
    Finished,
    Aborted { message: String },
}

/// The mathematical value of a [`RunState`].
#[verifier::ext_equal]
pub enum RunStateV {
    AwaitingBlock,
    AwaitingReceipts { hash: Seq<char>, txs: Seq<TxBasicV> },
    AwaitingOutcomes { catalog: Seq<ProbeCallV> },
    AwaitingRangeOutcomes { catalog: Seq<ProbeCallV> },
    Finished,
    Aborted { message: Seq<char> },
}

impl View for RunState {
    type V = RunStateV;

    open spec fn view(&self) -> RunStateV {
        match self {
            RunState::AwaitingBlock => RunStateV::AwaitingBlock,
            RunState::AwaitingReceipts { hash, txs } => RunStateV::AwaitingReceipts {
                hash: hash@,
                txs: tx_basics_view(txs@),
            },
            RunState::AwaitingOutcomes { catalog } => RunStateV::AwaitingOutcomes {
                catalog: calls_view(catalog@),
            },
            RunState::AwaitingRangeOutcomes { catalog } => RunStateV::AwaitingRangeOutcomes {
                catalog: calls_view(catalog@),
            },
            RunState::Finished => RunStateV::Finished,
            RunState::Aborted { message } => RunStateV::Aborted { message: message@ },
        }
    }
}

/// What the caller must do next: fetch canonical data from the truth
/// endpoint, issue the given calls to both probed endpoints concurrently,
/// or stop.
pub enum RunAction {
    FetchBlock { number: u64 },
    FetchReceipts { hashes: Vec<String> },
    IssueCalls { calls: Vec<ProbeCall> },
    Finish,
    Abort { message: String },
}

/// The mathematical value of a [`RunAction`].
#[verifier::ext_equal]
pub enum RunActionV {
    FetchBlock { number: u64 },
    FetchReceipts { hashes: Seq<Seq<char>> },
    IssueCalls { calls: Seq<ProbeCallV> },
    Finish,
    Abort { message: Seq<char> },
}

/// The values of a list of strings.
pub open spec fn strings_view(s: Seq<String>) -> Seq<Seq<char>> {
    Seq::new(
        s.len(),
        |i: int|
            if 0 <= i < s.len() {
                s[i]@
            } else {
                Seq::empty()
            },
    )
}

impl View for RunAction {
    type V = RunActionV;

    open spec fn view(&self) -> RunActionV {
        match self {
            RunAction::FetchBlock { number } => RunActionV::FetchBlock { number: *number },
            RunAction::FetchReceipts { hashes } => RunActionV::FetchReceipts {
                hashes: strings_view(hashes@),
            },
            RunAction::IssueCalls { calls } => RunActionV::IssueCalls {
                calls: calls_view(calls@),
            },
            RunAction::Finish => RunActionV::Finish,
            RunAction::Abort { message } => RunActionV::Abort { message: message@ },
        }
    }
}

/// A reply the caller hands back: the truth block, the truth receipts in
/// transaction order, or the paired endpoint replies in call order.
pub enum RunEvent {
    BlockFetched { result: Result<Option<Json>, String> },
    ReceiptsFetched { result: Result<Vec<Json>, String> },
    CallsCompleted { pairs: Vec<(Result<Json, String>, Result<Json, String>)> },
}

/// The mathematical value of a [`RunEvent`].
#[verifier::ext_equal]
pub enum RunEventV {
    BlockFetched { result: Result<Option<JsonV>, Seq<char>> },
    ReceiptsFetched { result: Result<Seq<JsonV>, Seq<char>> },
    CallsCompleted { pairs: Seq<(Result<JsonV, Seq<char>>, Result<JsonV, Seq<char>>)> },
}

/// The values of a list of decoded replies.
pub open spec fn jsons_view(s: Seq<Json>) -> Seq<JsonV> {
    Seq::new(
        s.len(),
        |i: int|
            if 0 <= i < s.len() {
                s[i]@
            } else {
                JsonV::Null
            },
    )
}

/// The values of a list of paired replies.
pub open spec fn pairs_view(s: Seq<(Result<Json, String>, Result<Json, String>)>) -> Seq<
    (Result<JsonV, Seq<char>>, Result<JsonV, Seq<char>>),
> {
    Seq::new(
        s.len(),
        |i: int|
            if 0 <= i < s.len() {
                (call_view(s[i].0), call_view(s[i].1))
            } else {
                (Ok(JsonV::Null), Ok(JsonV::Null))
            },
    )
}

impl View for RunEvent {
    type V = RunEventV;

    open spec fn view(&self) -> RunEventV {
        match self {
            RunEvent::BlockFetched { result } => RunEventV::BlockFetched {
                result: match result {
                    Ok(Some(v)) => Ok(Some(v@)),
                    Ok(None) => Ok(None),
                    Err(e) => Err(e@),
                },
            },
            RunEvent::ReceiptsFetched { result } => RunEventV::ReceiptsFetched {
                result: match result {
                    Ok(rs) => Ok(jsons_view(rs@)),
                    Err(e) => Err(e@),
                },
            },
            RunEvent::CallsCompleted { pairs } => RunEventV::CallsCompleted {
                pairs: pairs_view(pairs@),
            },
        }
    }
}

/// One run over one block range: its configuration, where it stands, and
/// the units assembled so far, blocks ascending.
pub struct RangeRun {
    pub config: RunConfig,
    pub start: u64,
    pub end: u64,
    pub current: u64,
    pub state: RunState,
    pub units: Vec<TestUnit>,
}

/// The mathematical value of a [`RangeRun`].
#[verifier::ext_equal]
pub struct RangeRunV {
    pub config: RunConfig,
    pub start: u64,
    pub end: u64,
    pub current: u64,
    pub state: RunStateV,
    pub units: Seq<TestUnitV>,
}

impl View for RangeRun {
    type V = RangeRunV;

    open spec fn view(&self) -> RangeRunV {
        RangeRunV {
            config: self.config,
            start: self.start,
            end: self.end,
            current: self.current,
            state: self.state@,
            units: units_view(self.units@),
        }
    }
}

/// The run's invariant: the cursor stays inside the range.
pub open spec fn run_wf(r: RangeRunV) -> bool {
    r.start <= r.current <= r.end
}

/// The catalog entries whose category the configuration enables, in
/// catalog order: the only probes for which calls are issued.
pub open spec fn spec_enabled_calls(cfg: RunConfig, cat: Seq<ProbeCallV>) -> Seq<ProbeCallV>
    decreases cat.len(),
{
    if cat.len() == 0 {
        Seq::empty()
    } else if spec_enabled(cfg, cat[0].category) {
        seq![cat[0]] + spec_enabled_calls(cfg, cat.drop_first())
    } else {
        spec_enabled_calls(cfg, cat.drop_first())
    }
}

/// Every issued call's category is enabled: a disabled probe's call count
/// is zero.
pub proof fn lemma_no_disabled_calls(cfg: RunConfig, cat: Seq<ProbeCallV>)
    ensures
        forall|j: int|
            0 <= j < spec_enabled_calls(cfg, cat).len() ==> spec_enabled(
                cfg,
                #[trigger] spec_enabled_calls(cfg, cat)[j].category,
            ),
    decreases cat.len(),
{
    if cat.len() > 0 {
        lemma_no_disabled_calls(cfg, cat.drop_first());
        if spec_enabled(cfg, cat[0].category) {
            assert forall|j: int| 0 <= j < spec_enabled_calls(cfg, cat).len() implies spec_enabled(
                cfg,
                #[trigger] spec_enabled_calls(cfg, cat)[j].category,
            ) by {
                if j > 0 {
                    assert(spec_enabled_calls(cfg, cat)[j] == spec_enabled_calls(
                        cfg,
                        cat.drop_first(),
                    )[j - 1]);
                }
            }
        }
    }
}

/// The outcomes of one unit: every catalog entry in order, a disabled
/// entry reported as agreeing without a reply, an enabled one classified
/// from the next reply pair.
pub open spec fn spec_merge(
    cfg: RunConfig,
    cat: Seq<ProbeCallV>,
    pairs: Seq<(Result<JsonV, Seq<char>>, Result<JsonV, Seq<char>>)>,
) -> Seq<(Seq<char>, OutcomeV)>
    decreases cat.len(),
{
    if cat.len() == 0 {
        Seq::empty()
    } else if spec_enabled(cfg, cat[0].category) {
        seq![(cat[0].name, spec_outcome(pairs[0].0, pairs[0].1))] + spec_merge(
            cfg,
            cat.drop_first(),
            pairs.drop_first(),
        )
    } else {
        seq![(cat[0].name, OutcomeV::Match)] + spec_merge(cfg, cat.drop_first(), pairs)
    }
}

/// One unit names every catalog entry in order, and a disabled entry
/// always agrees: its probe is reported as passing without any call.
pub proof fn lemma_merge_shape(
    cfg: RunConfig,
    cat: Seq<ProbeCallV>,
    pairs: Seq<(Result<JsonV, Seq<char>>, Result<JsonV, Seq<char>>)>,
)
    ensures
        spec_merge(cfg, cat, pairs).len() == cat.len(),
        forall|i: int|
            0 <= i < cat.len() ==> (#[trigger] spec_merge(cfg, cat, pairs)[i]).0 == cat[i].name,
        forall|i: int|
            0 <= i < cat.len() && !spec_enabled(cfg, (#[trigger] cat[i]).category) ==> spec_merge(
                cfg,
                cat,
                pairs,
            )[i].1 == OutcomeV::Match,
    decreases cat.len(),
{
    if cat.len() > 0 {
        if spec_enabled(cfg, cat[0].category) {
            lemma_merge_shape(cfg, cat.drop_first(), pairs.drop_first());
        } else {
            lemma_merge_shape(cfg, cat.drop_first(), pairs);
        }
    }
}

/// The message that aborts the run when the truth endpoint's block fetch
/// fails outright.
pub open spec fn msg_block_fetch(e: Seq<char>) -> Seq<char> {
    "truth block fetch failed: "@ + e
}

/// The message that aborts the run when the truth endpoint has no block
/// at the requested height.
pub open spec fn msg_block_missing(n: u64) -> Seq<char> {
    "truth endpoint has no block "@ + spec_dec(n)
}

/// The message that aborts the run when the truth block is malformed.
pub open spec fn msg_block_malformed(n: u64) -> Seq<char> {
    "malformed truth block "@ + spec_dec(n)
}

/// The message that aborts the run when a receipt fetch fails.
pub open spec fn msg_receipts_fetch(e: Seq<char>) -> Seq<char> {
    "truth receipt fetch failed: "@ + e
}

/// The message that aborts the run when a receipt reply is malformed or
/// the reply count is wrong.
pub open spec fn msg_receipts_malformed(n: u64) -> Seq<char> {
    "malformed truth receipts for block "@ + spec_dec(n)
}

/// The message that aborts the run when the caller hands back replies for
/// a different number of calls than were issued.
pub open spec fn msg_wrong_reply_count() -> Seq<char> {
    "reply count differs from issued call count"@
}

/// The message that aborts the run on an event that its state does not
/// await.
pub open spec fn msg_unexpected_event() -> Seq<char> {
    "event does not match the awaited reply"@
}

/// A block unit's title.
pub open spec fn spec_block_title(n: u64) -> Seq<char> {
    "Block Number "@ + spec_dec(n)
}

/// The range unit's title.
pub open spec fn spec_range_title(start: u64, end: u64) -> Seq<char> {
    spec_dec(start) + "..="@ + spec_dec(end)
}

/// The run with its state replaced.
pub open spec fn with_state(r: RangeRunV, s: RunStateV) -> RangeRunV {
    RangeRunV { state: s, ..r }
}

/// The aborted run and its final action.
pub open spec fn spec_abort(r: RangeRunV, m: Seq<char>) -> (RangeRunV, RunActionV) {
    (with_state(r, RunStateV::Aborted { message: m }), RunActionV::Abort { message: m })
}

/// The transaction contexts of a block: each listed transaction joined
/// with what its receipt reply exposes; nothing when a receipt is
/// malformed.
pub open spec fn spec_tx_contexts(txs: Seq<TxBasicV>, rs: Seq<JsonV>, i: nat) -> Option<
    Seq<TxContextV>,
>
    decreases txs.len() - i,
{
    if i >= txs.len() {
        Some(Seq::empty())
    } else {
        match (spec_parse_receipt(rs[i as int]), spec_tx_contexts(txs, rs, i + 1)) {
            (Some(logs), Some(rest)) => Some(
                seq![
                    TxContextV {
                        hash: txs[i as int].hash,
                        sender: txs[i as int].sender,
                        index: i as u64,
                        first_log_address: logs.0,
                        last_log_topic: logs.1,
                    },
                ] + rest,
            ),
            _ => None,
        }
    }
}

/// The transactions the configuration keeps: all of them, or only the
/// block's first.
pub open spec fn spec_kept_txs(cfg: RunConfig, txs: Seq<TxBasicV>) -> Seq<TxBasicV> {
    if !cfg.use_all_txes && txs.len() > 1 {
        txs.take(1)
    } else {
        txs
    }
}

/// Moving to the per-block catalog of `ctx`: the calls issued are the
/// enabled entries of the catalog.
pub open spec fn spec_to_outcomes(r: RangeRunV, ctx: BlockContextV) -> (RangeRunV, RunActionV) {
    (
        with_state(r, RunStateV::AwaitingOutcomes { catalog: spec_block_catalog(ctx) }),
        RunActionV::IssueCalls {
            calls: spec_enabled_calls(r.config, spec_block_catalog(ctx)),
        },
    )
}

/// How the run reacts to the truth endpoint's block reply.
pub open spec fn spec_on_block(r: RangeRunV, result: Result<Option<JsonV>, Seq<char>>) -> (
    RangeRunV,
    RunActionV,
) {
    match result {
        Err(e) => spec_abort(r, msg_block_fetch(e)),
        Ok(None) => spec_abort(r, msg_block_missing(r.current)),
        Ok(Some(v)) => match spec_parse_block(v, r.current) {
            None => spec_abort(r, msg_block_malformed(r.current)),
            Some((hash, txs)) => {
                let kept = spec_kept_txs(r.config, txs);
                if kept.len() > 0 {
                    (
                        with_state(r, RunStateV::AwaitingReceipts { hash, txs: kept }),
                        RunActionV::FetchReceipts {
                            hashes: Seq::new(kept.len(), |i: int| kept[i].hash),
                        },
                    )
                } else {
                    spec_to_outcomes(
                        r,
                        BlockContextV { number: r.current, hash, txs: Seq::empty() },
                    )
                }
            },
        },
    }
}

/// How the run reacts to the truth endpoint's receipt replies.
pub open spec fn spec_on_receipts(
    r: RangeRunV,
    hash: Seq<char>,
    txs: Seq<TxBasicV>,
    result: Result<Seq<JsonV>, Seq<char>>,
) -> (RangeRunV, RunActionV) {
    match result {
        Err(e) => spec_abort(r, msg_receipts_fetch(e)),
        Ok(rs) => if rs.len() != txs.len() {
            spec_abort(r, msg_receipts_malformed(r.current))
        } else {
            match spec_tx_contexts(txs, rs, 0) {
                None => spec_abort(r, msg_receipts_malformed(r.current)),
                Some(tcs) => spec_to_outcomes(
                    r,
                    BlockContextV { number: r.current, hash, txs: tcs },
                ),
            }
        },
    }
}

/// How the run reacts to the paired replies of a block's calls: the
/// block's unit is appended, then the next block is fetched, or the range
/// probes are issued after the last block.
pub open spec fn spec_on_outcomes(
    r: RangeRunV,
    catalog: Seq<ProbeCallV>,
    pairs: Seq<(Result<JsonV, Seq<char>>, Result<JsonV, Seq<char>>)>,
) -> (RangeRunV, RunActionV) {
    if pairs.len() != spec_enabled_calls(r.config, catalog).len() {
        spec_abort(r, msg_wrong_reply_count())
    } else {
        let unit = TestUnitV {
            title: spec_block_title(r.current),
            outcomes: spec_merge(r.config, catalog, pairs),
        };
        let pushed = RangeRunV { units: r.units.push(unit), ..r };
        if r.current < r.end {
            (
                RangeRunV {
                    current: (r.current + 1) as u64,
                    state: RunStateV::AwaitingBlock,
                    ..pushed
                },
                RunActionV::FetchBlock { number: (r.current + 1) as u64 },
            )
        } else {
            (
                with_state(
                    pushed,
                    RunStateV::AwaitingRangeOutcomes {
                        catalog: spec_range_catalog(r.start, r.end),
                    },
                ),
                RunActionV::IssueCalls {
                    calls: spec_enabled_calls(r.config, spec_range_catalog(r.start, r.end)),
                },
            )
        }
    }
}

/// How the run reacts to the paired replies of the range's calls: the
/// range unit is appended last and the run is complete.
pub open spec fn spec_on_range_outcomes(
    r: RangeRunV,
    catalog: Seq<ProbeCallV>,
    pairs: Seq<(Result<JsonV, Seq<char>>, Result<JsonV, Seq<char>>)>,
) -> (RangeRunV, RunActionV) {
    if pairs.len() != spec_enabled_calls(r.config, catalog).len() {
        spec_abort(r, msg_wrong_reply_count())
    } else {
        let unit = TestUnitV {
            title: spec_range_title(r.start, r.end),
            outcomes: spec_merge(r.config, catalog, pairs),
        };
        (
            RangeRunV { units: r.units.push(unit), state: RunStateV::Finished, ..r },
            RunActionV::Finish,
        )
    }
}

/// The whole transition relation: one event against one awaited reply. A
/// finished or aborted run stays where it is; an event the state does not
/// await aborts the run.
pub open spec fn spec_step(r: RangeRunV, ev: RunEventV) -> (RangeRunV, RunActionV) {
    match (r.state, ev) {
        (RunStateV::AwaitingBlock, RunEventV::BlockFetched { result }) => spec_on_block(r, result),
        (
            RunStateV::AwaitingReceipts { hash, txs },
            RunEventV::ReceiptsFetched { result },
        ) => spec_on_receipts(r, hash, txs, result),
        (
            RunStateV::AwaitingOutcomes { catalog },
            RunEventV::CallsCompleted { pairs },
        ) => spec_on_outcomes(r, catalog, pairs),
        (
            RunStateV::AwaitingRangeOutcomes { catalog },
            RunEventV::CallsCompleted { pairs },
        ) => spec_on_range_outcomes(r, catalog, pairs),
        (RunStateV::Finished, _) => (r, RunActionV::Finish),
        (RunStateV::Aborted { message }, _) => (r, RunActionV::Abort { message }),
        _ => spec_abort(r, msg_unexpected_event()),
    }
}

/// The run a report comes from is a function of the configuration, the
/// range and the event sequence alone: fed the same events, two runs from
/// the same starting point end in the same state with the same report.
/// Running twice against deterministic endpoints therefore yields
/// identical reports.
pub open spec fn spec_run_events(r: RangeRunV, evs: Seq<RunEventV>) -> RangeRunV
    decreases evs.len(),
{
    if evs.len() == 0 {
        r
    } else {
        spec_run_events(spec_step(r, evs[0]).0, evs.drop_first())
    }
}

/// Determinism of the aggregator, stated over whole event sequences.
pub proof fn lemma_run_deterministic(r1: RangeRunV, r2: RangeRunV, evs: Seq<RunEventV>)
    requires
        r1 == r2,
    ensures
        spec_run_events(r1, evs) == spec_run_events(r2, evs),
{
}

} // verus!

verus! {

/// Builds the issued-call list: the enabled catalog entries, order kept.
fn enabled_calls(cfg: RunConfig, cat: Vec<ProbeCall>) -> (r: Vec<ProbeCall>)
    ensures
        calls_view(r@) == spec_enabled_calls(cfg, calls_view(cat@)),
{
    let ghost full = calls_view(cat@);
    let mut rest = cat;
    let mut out: Vec<ProbeCall> = Vec::new();
    let ghost consumed = 0int;
    proof {
        assert(full.skip(0) =~= full);
        assert(calls_view(out@) + spec_enabled_calls(cfg, full.skip(0)) =~= spec_enabled_calls(
            cfg,
            full,
        ));
    }
    while rest.len() > 0
        invariant
            rest@.len() <= full.len(),
            consumed == full.len() - rest@.len(),
            forall|k: int|
                0 <= k < rest@.len() ==> (#[trigger] calls_view(rest@)[k]) == full[consumed + k],
            calls_view(out@) + spec_enabled_calls(cfg, full.skip(consumed)) == spec_enabled_calls(
                cfg,
                full,
            ),
        decreases rest@.len(),
    {
        let ghost pre_rest = rest@;
        let ghost pre_out = calls_view(out@);
        let x = rest.remove(0);
        proof {
            assert(x == pre_rest[0]);
            assert(calls_view(pre_rest)[0] == full[consumed]);
            assert(full.skip(consumed)[0] == full[consumed]);
            assert(full.skip(consumed).drop_first() =~= full.skip(consumed + 1));
            assert forall|k: int|
                0 <= k < rest@.len() implies (#[trigger] calls_view(rest@)[k]) == full[consumed + 1
                + k] by {
                assert(rest@[k] == pre_rest[k + 1]);
                assert(calls_view(pre_rest)[k + 1] == full[consumed + k + 1]);
            }
        }
        let enabled = category_enabled(cfg, x.category);
        if enabled {
            out.push(x);
            proof {
                assert(x@ == full[consumed]);
                assert(calls_view(out@) =~= pre_out + seq![full[consumed]]);
                assert(spec_enabled_calls(cfg, full.skip(consumed)) == seq![full[consumed]]
                    + spec_enabled_calls(cfg, full.skip(consumed + 1)));
                assert((pre_out + seq![full[consumed]]) + spec_enabled_calls(
                    cfg,
                    full.skip(consumed + 1),
                ) =~= pre_out + (seq![full[consumed]] + spec_enabled_calls(
                    cfg,
                    full.skip(consumed + 1),
                )));
            }
        } else {
            proof {
                assert(x@ == full[consumed]);
                assert(spec_enabled_calls(cfg, full.skip(consumed)) == spec_enabled_calls(
                    cfg,
                    full.skip(consumed + 1),
                ));
            }
        }
        proof {
            consumed = consumed + 1;
        }
    }
    proof {
        assert(full.skip(consumed) =~= Seq::<ProbeCallV>::empty());
        assert(calls_view(out@) + Seq::<ProbeCallV>::empty() =~= calls_view(out@));
    }
    out
}

/// Counts the calls the catalog will issue.
fn enabled_count(cfg: RunConfig, cat: &Vec<ProbeCall>) -> (r: usize)
    ensures
        r == spec_enabled_calls(cfg, calls_view(cat@)).len(),
{
    let ghost full = calls_view(cat@);
    let mut count: usize = 0;
    let mut i: usize = 0;
    proof {
        assert(full.skip(0) =~= full);
    }
    while i < cat.len()
        invariant
            i <= cat@.len(),
            full == calls_view(cat@),
            count <= i,
            count + spec_enabled_calls(cfg, full.skip(i as int)).len() == spec_enabled_calls(
                cfg,
                full,
            ).len(),
        decreases cat@.len() - i,
    {
        proof {
            assert(full.skip(i as int)[0] == full[i as int]);
            assert(full.skip(i as int).drop_first() =~= full.skip(i as int + 1));
        }
        if category_enabled(cfg, cat[i].category) {
            count += 1;
        }
        i += 1;
    }
    proof {
        assert(full.skip(cat@.len() as int) =~= Seq::<ProbeCallV>::empty());
    }
    count
}

/// Builds one unit's outcome list from the catalog and the replies.
fn merge_outcomes(
    cfg: RunConfig,
    cat: &Vec<ProbeCall>,
    pairs: Vec<(Result<Json, String>, Result<Json, String>)>,
) -> (r: Vec<(String, ProbeOutcome)>)
    requires
        pairs@.len() == spec_enabled_calls(cfg, calls_view(cat@)).len(),
    ensures
        outcomes_view(r@) == spec_merge(cfg, calls_view(cat@), pairs_view(pairs@)),
{
    let ghost full = calls_view(cat@);
    let ghost fullp = pairs_view(pairs@);
    let mut rem = pairs;
    let mut out: Vec<(String, ProbeOutcome)> = Vec::new();
    let mut i: usize = 0;
    proof {
        assert(full.skip(0) =~= full);
        assert(pairs_view(rem@) =~= fullp);
        assert(outcomes_view(out@) + spec_merge(cfg, full.skip(0), fullp) =~= spec_merge(
            cfg,
            full,
            fullp,
        ));
    }
    while i < cat.len()
        invariant
            i <= cat@.len(),
            full == calls_view(cat@),
            pairs_view(rem@).len() == spec_enabled_calls(cfg, full.skip(i as int)).len(),
            outcomes_view(out@) + spec_merge(cfg, full.skip(i as int), pairs_view(rem@))
                == spec_merge(cfg, full, fullp),
        decreases cat@.len() - i,
    {
        let ghost pre_out = outcomes_view(out@);
        let ghost remv = pairs_view(rem@);
        proof {
            assert(full.skip(i as int)[0] == full[i as int]);
            assert(full.skip(i as int).drop_first() =~= full.skip(i as int + 1));
        }
        let name = cat[i].name.clone();
        if category_enabled(cfg, cat[i].category) {
            proof {
                assert(spec_enabled_calls(cfg, full.skip(i as int)) == seq![full[i as int]]
                    + spec_enabled_calls(cfg, full.skip(i as int + 1)));
                assert(remv.len() > 0);
            }
            let ghost pre_rem = rem@;
            let p = rem.remove(0);
            proof {
                assert(p == pre_rem[0]);
                assert(pairs_view(pre_rem)[0] == (call_view(p.0), call_view(p.1)));
                assert(pairs_view(rem@) =~= remv.drop_first()) by {
                    assert forall|k: int|
                        0 <= k < rem@.len() implies pairs_view(rem@)[k] == remv.drop_first()[k] by {
                        assert(rem@[k] == pre_rem[k + 1]);
                        assert(pairs_view(pre_rem)[k + 1] == remv[k + 1]);
                    }
                }
            }
            let oc = crate::outcome::probe_outcome(p.0, p.1);
            out.push((name, oc));
            proof {
                assert(outcomes_view(out@) =~= pre_out + seq![
                    (full[i as int].name, spec_outcome(remv[0].0, remv[0].1)),
                ]);
                assert(spec_merge(cfg, full.skip(i as int), remv) == seq![
                    (full[i as int].name, spec_outcome(remv[0].0, remv[0].1)),
                ] + spec_merge(cfg, full.skip(i as int + 1), remv.drop_first()));
                assert((pre_out + seq![(full[i as int].name, spec_outcome(remv[0].0, remv[0].1))])
                    + spec_merge(cfg, full.skip(i as int + 1), remv.drop_first()) =~= pre_out + (
                seq![(full[i as int].name, spec_outcome(remv[0].0, remv[0].1))] + spec_merge(
                    cfg,
                    full.skip(i as int + 1),
                    remv.drop_first(),
                )));
            }
        } else {
            out.push((name, ProbeOutcome::Match));
            proof {
                assert(outcomes_view(out@) =~= pre_out + seq![
                    (full[i as int].name, OutcomeV::Match),
                ]);
                assert(spec_merge(cfg, full.skip(i as int), remv) == seq![
                    (full[i as int].name, OutcomeV::Match),
                ] + spec_merge(cfg, full.skip(i as int + 1), remv));
                assert((pre_out + seq![(full[i as int].name, OutcomeV::Match)]) + spec_merge(
                    cfg,
                    full.skip(i as int + 1),
                    remv,
                ) =~= pre_out + (seq![(full[i as int].name, OutcomeV::Match)] + spec_merge(
                    cfg,
                    full.skip(i as int + 1),
                    remv,
                )));
            }
        }
        i += 1;
    }
    proof {
        assert(full.skip(cat@.len() as int) =~= Seq::<ProbeCallV>::empty());
        assert(outcomes_view(out@) + Seq::<(Seq<char>, OutcomeV)>::empty() =~= outcomes_view(out@));
    }
    out
}

} // verus!

verus! {

/// A malformed receipt anywhere poisons the whole list.
proof fn lemma_txctx_none(txs: Seq<TxBasicV>, rs: Seq<JsonV>, k: nat, i: nat)
    requires
        k <= i < txs.len(),
        spec_parse_receipt(rs[i as int]) is None,
    ensures
        spec_tx_contexts(txs, rs, k) is None,
    decreases i - k,
{
    if k < i {
        lemma_txctx_none(txs, rs, k + 1, i);
    }
}

/// A list of receipts that all parse yields exactly the matching contexts.
proof fn lemma_txctx_some(txs: Seq<TxBasicV>, rs: Seq<JsonV>, tcs: Seq<TxContextV>, k: nat)
    requires
        k <= txs.len(),
        tcs.len() == txs.len(),
        forall|j: int|
            0 <= j < txs.len() ==> spec_parse_receipt(rs[j]) == Some(
                (
                    (#[trigger] tcs[j]).first_log_address,
                    tcs[j].last_log_topic,
                ),
            ),
        forall|j: int|
            0 <= j < txs.len() ==> (#[trigger] tcs[j]) == (TxContextV {
                hash: txs[j].hash,
                sender: txs[j].sender,
                index: j as u64,
                first_log_address: tcs[j].first_log_address,
                last_log_topic: tcs[j].last_log_topic,
            }),
    ensures
        spec_tx_contexts(txs, rs, k) == Some(tcs.skip(k as int)),
    decreases txs.len() - k,
{
    if k >= txs.len() {
        assert(tcs.skip(k as int) =~= Seq::empty());
    } else {
        lemma_txctx_some(txs, rs, tcs, k + 1);
        assert(seq![tcs[k as int]] + tcs.skip(k as int + 1) =~= tcs.skip(k as int));
    }
}

/// The concatenation of a literal prefix and a tail.
fn msg_concat(prefix: &str, rest: &str) -> (r: String)
    ensures
        r@ == prefix@ + rest@,
{
    let mut s = String::from_str(prefix);
    s.append(rest);
    s
}

impl RangeRun {
    /// Starts a run over the inclusive block range: the first action
    /// fetches the range's first block from the truth endpoint.
    pub fn new(config: RunConfig, start: u64, end: u64) -> (r: (RangeRun, RunAction))
        requires
            start <= end,
        ensures
            r.0@ == (RangeRunV {
                config,
                start,
                end,
                current: start,
                state: RunStateV::AwaitingBlock,
                units: Seq::empty(),
            }),
            r.1@ == (RunActionV::FetchBlock { number: start }),
            run_wf(r.0@),
    {
        let run = RangeRun {
            config,
            start,
            end,
            current: start,
            state: RunState::AwaitingBlock,
            units: Vec::new(),
        };
        proof {
            assert(units_view(run.units@) =~= Seq::<TestUnitV>::empty());
            assert(run@ =~~= RangeRunV {
                config,
                start,
                end,
                current: start,
                state: RunStateV::AwaitingBlock,
                units: Seq::empty(),
            });
        }
        (run, RunAction::FetchBlock { number: start })
    }

    /// Aborts the run with the given message.
    fn abort_with(&mut self, message: String) -> (a: RunAction)
        ensures
            (final(self)@, a@) == spec_abort(old(self)@, message@),
    {
        let m = message.clone();
        self.state = RunState::Aborted { message };
        proof {
            assert(self@ =~~= with_state(
                old(self)@,
                RunStateV::Aborted { message: message@ },
            ));
        }
        RunAction::Abort { message: m }
    }

    /// Aborts the run on an event its state does not await.
    fn unexpected(&mut self) -> (a: RunAction)
        ensures
            (final(self)@, a@) == spec_abort(old(self)@, msg_unexpected_event()),
    {
        self.abort_with(String::from_str("event does not match the awaited reply"))
    }

    /// Stores the per-block catalog of `ctx` and asks for its enabled
    /// calls.
    fn to_outcomes(&mut self, ctx: &BlockContext) -> (a: RunAction)
        ensures
            (final(self)@, a@) == spec_to_outcomes(old(self)@, ctx@),
    {
        let catalog = crate::probe::block_catalog(ctx);
        let issue = enabled_calls(self.config, crate::probe::block_catalog(ctx));
        self.state = RunState::AwaitingOutcomes { catalog };
        proof {
            assert(self@ =~~= spec_to_outcomes(old(self)@, ctx@).0);
        }
        RunAction::IssueCalls { calls: issue }
    }

    /// Handles the truth endpoint's block reply.
    fn on_block(&mut self, result: Result<Option<Json>, String>) -> (a: RunAction)
        ensures
            (final(self)@, a@) == spec_on_block(
                old(self)@,
                match result {
                    Ok(Some(v)) => Ok(Some(v@)),
                    Ok(None) => Ok::<Option<JsonV>, Seq<char>>(None),
                    Err(e) => Err(e@),
                },
            ),
    {
        match result {
            Err(e) => {
                let m = msg_concat("truth block fetch failed: ", e.as_str());
                self.abort_with(m)
            },
            Ok(None) => {
                let m = msg_concat(
                    "truth endpoint has no block ",
                    crate::text::dec_of(self.current).as_str(),
                );
                self.abort_with(m)
            },
            Ok(Some(v)) => {
                match crate::context::parse_block(&v, self.current) {
                    None => {
                        let m = msg_concat(
                            "malformed truth block ",
                            crate::text::dec_of(self.current).as_str(),
                        );
                        self.abort_with(m)
                    },
                    Some((hash, txs)) => {
                        let ghost txsv = tx_basics_view(txs@);
                        let mut kept = txs;
                        if !self.config.use_all_txes && kept.len() > 1 {
                            let ghost prevk = kept@;
                            kept.truncate(1);
                            proof {
                                assert(tx_basics_view(kept@) =~= spec_kept_txs(
                                    old(self)@.config,
                                    txsv,
                                )) by {
                                    assert(kept@.len() == 1);
                                    assert(kept@[0] == prevk[0]);
                                    assert(tx_basics_view(kept@)[0] == tx_basics_view(prevk)[0]);
                                }
                            }
                        }
                        proof {
                            assert(tx_basics_view(kept@) =~= spec_kept_txs(old(self)@.config, txsv));
                        }
                        let ghost keptv = tx_basics_view(kept@);
                        if kept.len() > 0 {
                            let mut hashes: Vec<String> = Vec::new();
                            let mut i: usize = 0;
                            while i < kept.len()
                                invariant
                                    i <= kept@.len(),
                                    keptv == tx_basics_view(kept@),
                                    hashes@.len() == i,
                                    forall|k: int|
                                        0 <= k < i ==> (#[trigger] hashes@[k])@ == keptv[k].hash,
                                decreases kept@.len() - i,
                            {
                                hashes.push(kept[i].hash.clone());
                                i += 1;
                            }
                            proof {
                                assert(strings_view(hashes@) =~= Seq::new(
                                    keptv.len(),
                                    |i: int| keptv[i].hash,
                                ));
                            }
                            let ghost hv = hash@;
                            let a = RunAction::FetchReceipts { hashes };
                            self.state = RunState::AwaitingReceipts { hash, txs: kept };
                            proof {
                                assert(self@ =~~= with_state(
                                    old(self)@,
                                    RunStateV::AwaitingReceipts { hash: hv, txs: keptv },
                                ));
                            }
                            a
                        } else {
                            let ctx = BlockContext { number: self.current, hash, txs: Vec::new() };
                            proof {
                                assert(ctx@ =~~= BlockContextV {
                                    number: old(self)@.current,
                                    hash: ctx.hash@,
                                    txs: Seq::empty(),
                                });
                            }
                            self.to_outcomes(&ctx)
                        }
                    },
                }
            },
        }
    }

    /// Handles the truth endpoint's receipt replies.
    fn on_receipts(&mut self, result: Result<Vec<Json>, String>) -> (a: RunAction)
        requires
            old(self)@.state is AwaitingReceipts,
        ensures
            (final(self)@, a@) == spec_on_receipts(
                old(self)@,
                old(self)@.state->AwaitingReceipts_hash,
                old(self)@.state->AwaitingReceipts_txs,
                match result {
                    Ok(rs) => Ok(jsons_view(rs@)),
                    Err(e) => Err(e@),
                },
            ),
    {
        match result {
            Err(e) => {
                let m = msg_concat("truth receipt fetch failed: ", e.as_str());
                self.abort_with(m)
            },
            Ok(rs) => {
                let ghost rsv = jsons_view(rs@);
                let (hash, txs) = match &self.state {
                    RunState::AwaitingReceipts { hash, txs } => {
                        let h = hash.clone();
                        let mut ts: Vec<TxBasic> = Vec::new();
                        let mut i: usize = 0;
                        while i < txs.len()
                            invariant
                                i <= txs@.len(),
                                ts@.len() == i,
                                forall|k: int|
                                    0 <= k < i ==> (#[trigger] ts@[k])@ == tx_basics_view(txs@)[k],
                            decreases txs@.len() - i,
                        {
                            ts.push(
                                TxBasic {
                                    hash: txs[i].hash.clone(),
                                    sender: txs[i].sender.clone(),
                                },
                            );
                            i += 1;
                        }
                        proof {
                            assert(tx_basics_view(ts@) =~= tx_basics_view(txs@));
                        }
                        (h, ts)
                    },
                    _ => {
                        proof {
                            assert(false);
                        }
                        unreached()
                    },
                };
                let ghost txsv = tx_basics_view(txs@);
                if rs.len() != txs.len() {
                    let m = msg_concat(
                        "malformed truth receipts for block ",
                        crate::text::dec_of(self.current).as_str(),
                    );
                    return self.abort_with(m);
                }
                let mut tcs: Vec<TxContext> = Vec::new();
                let mut i: usize = 0;
                while i < txs.len()
                    invariant
                        *self == *old(self),
                        old(self)@.state is AwaitingReceipts,
                        txsv == old(self)@.state->AwaitingReceipts_txs,
                        result is Ok,
                        rsv == jsons_view(result->Ok_0@),
                        i <= txs@.len(),
                        txs@.len() == rs@.len(),
                        txsv == tx_basics_view(txs@),
                        rsv == jsons_view(rs@),
                        tcs@.len() == i,
                        forall|k: int|
                            0 <= k < i ==> spec_parse_receipt(rsv[k]) == Some(
                                (
                                    ((#[trigger] tcs@[k])@).first_log_address,
                                    (tcs@[k]@).last_log_topic,
                                ),
                            ),
                        forall|k: int|
                            0 <= k < i ==> ((#[trigger] tcs@[k])@) == (TxContextV {
                                hash: txsv[k].hash,
                                sender: txsv[k].sender,
                                index: k as u64,
                                first_log_address: (tcs@[k]@).first_log_address,
                                last_log_topic: (tcs@[k]@).last_log_topic,
                            }),
                    decreases txs@.len() - i,
                {
                    proof {
                        assert(rsv[i as int] == rs@[i as int]@);
                    }
                    match crate::context::parse_receipt(&rs[i]) {
                        None => {
                            proof {
                                lemma_txctx_none(txsv, rsv, 0, i as nat);
                                assert(spec_tx_contexts(txsv, rsv, 0) is None);
                            }
                            let m = msg_concat(
                                "malformed truth receipts for block ",
                                crate::text::dec_of(self.current).as_str(),
                            );
                            let a = self.abort_with(m);
                            proof {
                                assert(m@ == msg_receipts_malformed(old(self)@.current));
                                let x = spec_on_receipts(
                                    old(self)@,
                                    old(self)@.state->AwaitingReceipts_hash,
                                    old(self)@.state->AwaitingReceipts_txs,
                                    Ok(rsv),
                                );
                                assert(self@ =~~= x.0);
                                assert(a@ =~~= x.1);
                            }
                            return a;
                        },
                        Some((fa, lt)) => {
                            tcs.push(
                                TxContext {
                                    hash: txs[i].hash.clone(),
                                    sender: txs[i].sender.clone(),
                                    index: i as u64,
                                    first_log_address: fa,
                                    last_log_topic: lt,
                                },
                            );
                        },
                    }
                    i += 1;
                }
                let ghost tcsv = Seq::new(tcs@.len(), |k: int| if 0 <= k < tcs@.len() { tcs@[k]@ } else { arbitrary() });
                proof {
                    assert forall|j: int| 0 <= j < txsv.len() implies (#[trigger] tcsv[j]) == tcs@[j]@ by {}
                    lemma_txctx_some(txsv, rsv, tcsv, 0);
                    assert(tcsv.skip(0) =~= tcsv);
                }
                let ctx = BlockContext { number: self.current, hash, txs: tcs };
                proof {
                    assert(ctx@.number == old(self)@.current);
                    assert(ctx@.hash == old(self)@.state->AwaitingReceipts_hash);
                    assert(ctx@.txs =~~= tcsv);
                    assert(ctx@ =~~= BlockContextV {
                        number: old(self)@.current,
                        hash: old(self)@.state->AwaitingReceipts_hash,
                        txs: tcsv,
                    });
                }
                self.to_outcomes(&ctx)
            },
        }
    }

    /// Handles the paired replies of a block's calls.
    fn on_outcomes(&mut self, pairs: Vec<(Result<Json, String>, Result<Json, String>)>) -> (a:
        RunAction)
        requires
            old(self)@.state is AwaitingOutcomes,
            run_wf(old(self)@),
        ensures
            (final(self)@, a@) == spec_on_outcomes(
                old(self)@,
                old(self)@.state->AwaitingOutcomes_catalog,
                pairs_view(pairs@),
            ),
            run_wf(final(self)@),
    {
        let count = match &self.state {
            RunState::AwaitingOutcomes { catalog } => enabled_count(self.config, catalog),
            _ => {
                proof {
                    assert(false);
                }
                unreached()
            },
        };
        if pairs.len() != count {
            let m = String::from_str("reply count differs from issued call count");
            return self.abort_with(m);
        }
        let title = msg_concat("Block Number ", crate::text::dec_of(self.current).as_str());
        let outcomes = match &self.state {
            RunState::AwaitingOutcomes { catalog } => merge_outcomes(self.config, catalog, pairs),
            _ => {
                proof {
                    assert(false);
                }
                unreached()
            },
        };
        let ghost pre_units = units_view(self.units@);
        let unit = TestUnit { title, outcomes };
        let ghost unitv = unit@;
        self.units.push(unit);
        proof {
            assert(units_view(self.units@) =~= pre_units.push(unitv));
        }
        if self.current < self.end {
            self.current = self.current + 1;
            self.state = RunState::AwaitingBlock;
            let a = RunAction::FetchBlock { number: self.current };
            proof {
                assert(self@ =~~= spec_on_outcomes(
                    old(self)@,
                    old(self)@.state->AwaitingOutcomes_catalog,
                    pairs_view(pairs@),
                ).0);
            }
            a
        } else {
            let catalog = crate::probe::range_catalog(self.start, self.end);
            let issue = enabled_calls(self.config, crate::probe::range_catalog(self.start, self.end));
            self.state = RunState::AwaitingRangeOutcomes { catalog };
            proof {
                assert(self@ =~~= spec_on_outcomes(
                    old(self)@,
                    old(self)@.state->AwaitingOutcomes_catalog,
                    pairs_view(pairs@),
                ).0);
            }
            RunAction::IssueCalls { calls: issue }
        }
    }

    /// Handles the paired replies of the range's calls.
    fn on_range_outcomes(&mut self, pairs: Vec<(Result<Json, String>, Result<Json, String>)>) -> (
        a: RunAction)
        requires
            old(self)@.state is AwaitingRangeOutcomes,
        ensures
            (final(self)@, a@) == spec_on_range_outcomes(
                old(self)@,
                old(self)@.state->AwaitingRangeOutcomes_catalog,
                pairs_view(pairs@),
            ),
    {
        let count = match &self.state {
            RunState::AwaitingRangeOutcomes { catalog } => enabled_count(self.config, catalog),
            _ => {
                proof {
                    assert(false);
                }
                unreached()
            },
        };
        if pairs.len() != count {
            let m = String::from_str("reply count differs from issued call count");
            return self.abort_with(m);
        }
        let mut title = crate::text::dec_of(self.start);
        title.append("..=");
        let end_text = crate::text::dec_of(self.end);
        title.append(end_text.as_str());
        let outcomes = match &self.state {
            RunState::AwaitingRangeOutcomes { catalog } => merge_outcomes(
                self.config,
                catalog,
                pairs,
            ),
            _ => {
                proof {
                    assert(false);
                }
                unreached()
            },
        };
        let ghost pre_units = units_view(self.units@);
        let unit = TestUnit { title, outcomes };
        let ghost unitv = unit@;
        self.units.push(unit);
        self.state = RunState::Finished;
        proof {
            assert(units_view(self.units@) =~= pre_units.push(unitv));
            assert(self@ =~~= spec_on_range_outcomes(
                old(self)@,
                old(self)@.state->AwaitingRangeOutcomes_catalog,
                pairs_view(pairs@),
            ).0);
        }
        RunAction::Finish
    }

    /// Feeds one reply to the run and yields what to do next. The whole
    /// transition is the one `spec_step` describes.
    pub fn step(&mut self, ev: RunEvent) -> (a: RunAction)
        requires
            run_wf(old(self)@),
        ensures
            (final(self)@, a@) == spec_step(old(self)@, ev@),
            run_wf(final(self)@),
    {
        match &self.state {
            RunState::Finished => {
                return RunAction::Finish;
            },
            RunState::Aborted { message } => {
                let m = message.clone();
                return RunAction::Abort { message: m };
            },
            _ => {},
        }
        match ev {
            RunEvent::BlockFetched { result } => {
                match &self.state {
                    RunState::AwaitingBlock => {},
                    _ => {
                        return self.unexpected();
                    },
                }
                self.on_block(result)
            },
            RunEvent::ReceiptsFetched { result } => {
                match &self.state {
                    RunState::AwaitingReceipts { .. } => {},
                    _ => {
                        return self.unexpected();
                    },
                }
                self.on_receipts(result)
            },
            RunEvent::CallsCompleted { pairs } => {
                match &self.state {
                    RunState::AwaitingOutcomes { .. } => self.on_outcomes(pairs),
                    RunState::AwaitingRangeOutcomes { .. } => self.on_range_outcomes(pairs),
                    _ => self.unexpected(),
                }
            },
        }
    }
}

} // verus!

verus! {

/// The values of a list of events.
pub open spec fn events_view(s: Seq<RunEvent>) -> Seq<RunEventV> {
    Seq::new(
        s.len(),
        |i: int|
            if 0 <= i < s.len() {
                s[i]@
            } else {
                RunEventV::CallsCompleted { pairs: Seq::empty() }
            },
    )
}

/// Replays a whole reply sequence from the start of a range: the final
/// run is exactly the fold of `spec_step` over the replies, so it is a
/// function of the configuration, the range and the replies alone —
/// replaying the same deterministic replies twice yields the identical
/// report.
pub fn replay(config: RunConfig, start: u64, end: u64, events: Vec<RunEvent>) -> (r: RangeRun)
    requires
        start <= end,
    ensures
        r@ == spec_run_events(
            RangeRunV {
                config,
                start,
                end,
                current: start,
                state: RunStateV::AwaitingBlock,
                units: Seq::empty(),
            },
            events_view(events@),
        ),
{
    let ghost initial = RangeRunV {
        config,
        start,
        end,
        current: start,
        state: RunStateV::AwaitingBlock,
        units: Seq::empty(),
    };
    let ghost full = events_view(events@);
    let (mut run, _) = RangeRun::new(config, start, end);
    let mut rest = events;
    proof {
        assert(events_view(rest@) =~= full);
    }
    while rest.len() > 0
        invariant
            run_wf(run@),
            spec_run_events(run@, events_view(rest@)) == spec_run_events(initial, full),
        decreases rest@.len(),
    {
        let ghost prev = rest@;
        let ghost prev_run = run@;
        let ev = rest.remove(0);
        proof {
            assert(ev == prev[0]);
            assert(events_view(prev)[0] == ev@);
            assert(events_view(rest@) =~= events_view(prev).drop_first()) by {
                assert forall|k: int|
                    0 <= k < rest@.len() implies events_view(rest@)[k] == events_view(
                    prev,
                ).drop_first()[k] by {
                    assert(rest@[k] == prev[k + 1]);
                    assert(events_view(prev)[k + 1] == prev[k + 1]@);
                }
            }
        }
        let _ = run.step(ev);
        proof {
            assert(run@ == spec_step(prev_run, ev@).0);
            assert(spec_run_events(prev_run, events_view(prev)) == spec_run_events(
                run@,
                events_view(prev).drop_first(),
            ));
        }
    }
    proof {
        assert(events_view(rest@).len() == 0);
        assert(spec_run_events(run@, events_view(rest@)) == run@);
    }
    run
}

} // verus!
