//! The probe catalog: the fixed table of named query operations, each with
//! its wire method, its argument rule and its category gate.

use vstd::prelude::*;
use crate::json::{Json, JsonV, arr_view};
use crate::context::{BlockContext, BlockContextV, TxContext, TxContextV};
use crate::{spec_hex, hex_of};

verus! {

/// The class a probe belongs to: `Core` always runs, `Extended` covers the
/// vendor introspection namespace, `Trace` the heavy tracing calls.
#[derive(Clone, Copy, PartialEq, Eq, Structural, Debug)]
pub enum Category {
    Core,
    Extended,
    Trace,
}

/// The run's configuration: which optional categories run, and whether
/// every transaction of a block is probed or only the first.
#[derive(Clone, Copy, PartialEq, Eq, Structural, Debug)]
pub struct RunConfig {
    pub use_tracing: bool,
    pub use_reth: bool,
    pub use_all_txes: bool,
}

/// The category gate: a pure function of the run configuration alone.
pub open spec fn spec_enabled(cfg: RunConfig, cat: Category) -> bool {
    match cat {
        Category::Core => true,
        Category::Extended => cfg.use_reth,
        Category::Trace => cfg.use_tracing,
    }
}

/// Decides the category gate.
pub fn category_enabled(cfg: RunConfig, cat: Category) -> (r: bool)
    ensures
        r == spec_enabled(cfg, cat),
{
    match cat {
        Category::Core => true,
        Category::Extended => cfg.use_reth,
        Category::Trace => cfg.use_tracing,
    }
}

/// One catalog entry: the probe's report name, the JSON-RPC method it
/// sends, the argument list, and its category.
pub struct ProbeCall {
    pub name: String,
    pub method: String,
    pub params: Vec<Json>,
    pub category: Category,
}

/// The mathematical value of a [`ProbeCall`].
#[verifier::ext_equal]
pub struct ProbeCallV {
    pub name: Seq<char>,
    pub method: Seq<char>,
    pub params: Seq<JsonV>,
    pub category: Category,
}

impl View for ProbeCall {
    type V = ProbeCallV;

    open spec fn view(&self) -> ProbeCallV {
        ProbeCallV {
            name: self.name@,
            method: self.method@,
            params: arr_view(self.params@),
            category: self.category,
        }
    }
}

/// The values of a list of catalog entries.
pub open spec fn calls_view(s: Seq<ProbeCall>) -> Seq<ProbeCallV> {
    Seq::new(
        s.len(),
        |i: int|
            if 0 <= i < s.len() {
                s[i]@
            } else {
                ProbeCallV {
                    name: Seq::empty(),
                    method: Seq::empty(),
                    params: Seq::empty(),
                    category: Category::Core,
                }
            },
    )
}

/// A catalog entry as a value.
pub open spec fn probe_v(
    name: Seq<char>,
    method: Seq<char>,
    params: Seq<JsonV>,
    category: Category,
) -> ProbeCallV {
    ProbeCallV { name, method, params, category }
}

/// The log filter object for a block span, optionally narrowed to one
/// emitting address or one leading topic.
pub open spec fn spec_filter(
    from: u64,
    to: u64,
    address: Option<Seq<char>>,
    topic: Option<Seq<char>>,
) -> JsonV {
    JsonV::Obj(
        seq![
            ("fromBlock"@, JsonV::Str(spec_hex(from))),
            ("toBlock"@, JsonV::Str(spec_hex(to))),
        ] + (match address {
            Some(a) => seq![("address"@, JsonV::Str(a))],
            None => Seq::empty(),
        }) + (match topic {
            Some(t) => seq![("topics"@, JsonV::Arr(seq![JsonV::Str(t)]))],
            None => Seq::empty(),
        }),
    )
}

/// Builds the log filter object.
pub fn filter_json(from: u64, to: u64, address: Option<&String>, topic: Option<&String>) -> (r:
    Json)
    ensures
        r@ == spec_filter(
            from,
            to,
            match address {
                Some(a) => Some(a@),
                None => None,
            },
            match topic {
                Some(t) => Some(t@),
                None => None,
            },
        ),
{
    let mut fields: Vec<(String, Json)> = Vec::new();
    fields.push((String::from_str("fromBlock"), Json::Str(hex_of(from))));
    fields.push((String::from_str("toBlock"), Json::Str(hex_of(to))));
    if let Some(a) = address {
        fields.push((String::from_str("address"), Json::Str(a.clone())));
    }
    if let Some(t) = topic {
        let mut one: Vec<Json> = Vec::new();
        one.push(Json::Str(t.clone()));
        proof {
            assert(one@.len() == 1);
            assert(one@[0]@ == JsonV::Str(t@));
        }
        let arr = Json::Arr(one);
        proof {
            assert(arr@ is Arr);
            assert(arr@->Arr_0.len() == 1);
            assert(arr@->Arr_0[0] == JsonV::Str(t@));
            assert(arr@->Arr_0 =~~= seq![JsonV::Str(t@)]);
            assert(arr@ =~~= JsonV::Arr(seq![JsonV::Str(t@)]));
        }
        fields.push((String::from_str("topics"), arr));
        proof {
            assert(fields@.last().1@ =~~= JsonV::Arr(seq![JsonV::Str(t@)]));
        }
    }
    let r = Json::Obj(fields);
    proof {
        let sv = spec_filter(
            from,
            to,
            match address {
                Some(a) => Some(a@),
                None => None,
            },
            match topic {
                Some(t) => Some(t@),
                None => None,
            },
        );
        let fv = crate::json::fields_view(fields@);
        assert(sv is Obj);
        assert(fv.len() == sv->Obj_0.len());
        assert(fv[0] =~~= sv->Obj_0[0]);
        assert(fv[1] =~~= sv->Obj_0[1]);
        assert forall|i: int| 0 <= i < fv.len() implies fv[i] =~~= sv->Obj_0[i] by {
            if i >= 2 {
                match (address, topic) {
                    (Some(a), Some(t)) => {
                        if i == 2 {
                            assert(fv[i].0 =~~= sv->Obj_0[i].0);
                            assert(fv[i].1 =~~= sv->Obj_0[i].1);
                        } else {
                            assert(fv[i].0 =~~= sv->Obj_0[i].0);
                            assert(fv[i].1 =~~= sv->Obj_0[i].1);
                        }
                    },
                    (Some(a), None) => {
                        assert(fv[i].0 =~~= sv->Obj_0[i].0);
                        assert(fv[i].1 =~~= sv->Obj_0[i].1);
                    },
                    (None, Some(t)) => {
                        assert(fv[i].0 =~~= sv->Obj_0[i].0);
                        assert(fv[i].1 =~~= sv->Obj_0[i].1);
                    },
                    (None, None) => {},
                }
                assert(fv[i].0 =~~= sv->Obj_0[i].0 && fv[i].1 =~~= sv->Obj_0[i].1);
                assert(fv[i] =~~= (sv->Obj_0[i].0, sv->Obj_0[i].1));
            }
        }
        assert(fv =~~= sv->Obj_0);
        assert(r@ =~~= spec_filter(
            from,
            to,
            match address {
                Some(a) => Some(a@),
                None => None,
            },
            match topic {
                Some(t) => Some(t@),
                None => None,
            },
        ));
    }
    r
}

/// The per-block probes: block and header lookups by hash and number,
/// transaction and uncle counts, the block's receipts, the vendor balance
/// changes, the block trace, and the block-scoped log filter.
pub open spec fn spec_block_probes(ctx: BlockContextV) -> Seq<ProbeCallV> {
    let hash = JsonV::Str(ctx.hash);
    let tag = JsonV::Str(spec_hex(ctx.number));
    seq![
        probe_v(
            "block_by_hash"@,
            "eth_getBlockByHash"@,
            seq![hash, JsonV::Bool(true)],
            Category::Core,
        ),
        probe_v(
            "block_by_number"@,
            "eth_getBlockByNumber"@,
            seq![tag, JsonV::Bool(true)],
            Category::Core,
        ),
        probe_v(
            "block_transaction_count_by_hash"@,
            "eth_getBlockTransactionCountByHash"@,
            seq![hash],
            Category::Core,
        ),
        probe_v(
            "block_transaction_count_by_number"@,
            "eth_getBlockTransactionCountByNumber"@,
            seq![tag],
            Category::Core,
        ),
        probe_v(
            "block_uncles_count_by_hash"@,
            "eth_getUncleCountByBlockHash"@,
            seq![hash],
            Category::Core,
        ),
        probe_v(
            "block_uncles_count_by_number"@,
            "eth_getUncleCountByBlockNumber"@,
            seq![tag],
            Category::Core,
        ),
        probe_v("block_receipts"@, "eth_getBlockReceipts"@, seq![tag], Category::Core),
        probe_v("header_by_number"@, "eth_getHeaderByNumber"@, seq![tag], Category::Core),
        probe_v("header_by_hash"@, "eth_getHeaderByHash"@, seq![hash], Category::Core),
        probe_v(
            "reth_get_balance_changes_in_block"@,
            "reth_getBalanceChangesInBlock"@,
            seq![tag],
            Category::Extended,
        ),
        probe_v("trace_block"@, "trace_block"@, seq![tag], Category::Trace),
        probe_v(
            "logs"@,
            "eth_getLogs"@,
            seq![spec_filter(ctx.number, ctx.number, None, None)],
            Category::Core,
        ),
    ]
}

/// The per-transaction probes: the opportunistic log filters a receipt's
/// logs expose, raw and decoded transaction lookups by hash and by
/// position, the receipt, the sender's nonce and balance at the block, and
/// the call trace.
pub open spec fn spec_tx_probes(n: u64, block_hash: Seq<char>, tx: TxContextV) -> Seq<ProbeCallV> {
    let h = JsonV::Str(tx.hash);
    let idx = JsonV::Str(spec_hex(tx.index));
    let tag = JsonV::Str(spec_hex(n));
    let bh = JsonV::Str(block_hash);
    let sender = JsonV::Str(tx.sender);
    (match tx.first_log_address {
        Some(a) => seq![
            probe_v("logs"@, "eth_getLogs"@, seq![spec_filter(n, n, Some(a), None)], Category::Core),
        ],
        None => Seq::empty(),
    }) + (match tx.last_log_topic {
        Some(t) => seq![
            probe_v("logs"@, "eth_getLogs"@, seq![spec_filter(n, n, None, Some(t))], Category::Core),
        ],
        None => Seq::empty(),
    }) + seq![
        probe_v("raw_transaction_by_hash"@, "eth_getRawTransactionByHash"@, seq![h], Category::Core),
        probe_v("transaction_by_hash"@, "eth_getTransactionByHash"@, seq![h], Category::Core),
        probe_v(
            "raw_transaction_by_block_hash_and_index"@,
            "eth_getRawTransactionByBlockHashAndIndex"@,
            seq![bh, idx],
            Category::Core,
        ),
        probe_v(
            "transaction_by_block_hash_and_index"@,
            "eth_getTransactionByBlockHashAndIndex"@,
            seq![bh, idx],
            Category::Core,
        ),
        probe_v(
            "raw_transaction_by_block_number_and_index"@,
            "eth_getRawTransactionByBlockNumberAndIndex"@,
            seq![tag, idx],
            Category::Core,
        ),
        probe_v(
            "transaction_by_block_number_and_index"@,
            "eth_getTransactionByBlockNumberAndIndex"@,
            seq![tag, idx],
            Category::Core,
        ),
        probe_v("transaction_receipt"@, "eth_getTransactionReceipt"@, seq![h], Category::Core),
        probe_v(
            "transaction_count"@,
            "eth_getTransactionCount"@,
            seq![sender, tag],
            Category::Core,
        ),
        probe_v("balance"@, "eth_getBalance"@, seq![sender, tag], Category::Core),
        probe_v(
            "debug_trace_transaction"@,
            "debug_traceTransaction"@,
            seq![h, JsonV::Obj(seq![("tracer"@, JsonV::Str("callTracer"@))])],
            Category::Trace,
        ),
    ]
}

/// The per-transaction probes of the transactions from position `i` on.
pub open spec fn spec_tx_probes_from(ctx: BlockContextV, i: nat) -> Seq<ProbeCallV>
    decreases ctx.txs.len() - i,
{
    if i >= ctx.txs.len() {
        Seq::empty()
    } else {
        spec_tx_probes(ctx.number, ctx.hash, ctx.txs[i as int]) + spec_tx_probes_from(ctx, i + 1)
    }
}

/// The whole per-block catalog: the block probes, then each transaction's
/// probes in transaction order.
pub open spec fn spec_block_catalog(ctx: BlockContextV) -> Seq<ProbeCallV> {
    spec_block_probes(ctx) + spec_tx_probes_from(ctx, 0)
}

/// The per-range catalog: one log filter spanning the whole block range.
pub open spec fn spec_range_catalog(start: u64, end: u64) -> Seq<ProbeCallV> {
    seq![
        probe_v("logs"@, "eth_getLogs"@, seq![spec_filter(start, end, None, None)], Category::Core),
    ]
}

/// One built catalog entry.
fn probe(name: &str, method: &str, params: Vec<Json>, category: Category) -> (r: ProbeCall)
    ensures
        r@ == probe_v(name@, method@, arr_view(params@), category),
{
    ProbeCall { name: String::from_str(name), method: String::from_str(method), params, category }
}

/// Builds the per-block probes of the catalog.
pub fn block_probes(ctx: &BlockContext) -> (r: Vec<ProbeCall>)
    ensures
        calls_view(r@) == spec_block_probes(ctx@),
{
    let mut out: Vec<ProbeCall> = Vec::new();
    let mut params: Vec<Json>;

    params = Vec::new();
    params.push(Json::Str(ctx.hash.clone()));
    params.push(Json::Bool(true));
    out.push(probe("block_by_hash", "eth_getBlockByHash", params, Category::Core));

    params = Vec::new();
    params.push(Json::Str(hex_of(ctx.number)));
    params.push(Json::Bool(true));
    out.push(probe("block_by_number", "eth_getBlockByNumber", params, Category::Core));

    params = Vec::new();
    params.push(Json::Str(ctx.hash.clone()));
    out.push(
        probe(
            "block_transaction_count_by_hash",
            "eth_getBlockTransactionCountByHash",
            params,
            Category::Core,
        ),
    );

    params = Vec::new();
    params.push(Json::Str(hex_of(ctx.number)));
    out.push(
        probe(
            "block_transaction_count_by_number",
            "eth_getBlockTransactionCountByNumber",
            params,
            Category::Core,
        ),
    );

    params = Vec::new();
    params.push(Json::Str(ctx.hash.clone()));
    out.push(
        probe("block_uncles_count_by_hash", "eth_getUncleCountByBlockHash", params, Category::Core),
    );

    params = Vec::new();
    params.push(Json::Str(hex_of(ctx.number)));
    out.push(
        probe(
            "block_uncles_count_by_number",
            "eth_getUncleCountByBlockNumber",
            params,
            Category::Core,
        ),
    );

    params = Vec::new();
    params.push(Json::Str(hex_of(ctx.number)));
    out.push(probe("block_receipts", "eth_getBlockReceipts", params, Category::Core));

    params = Vec::new();
    params.push(Json::Str(hex_of(ctx.number)));
    out.push(probe("header_by_number", "eth_getHeaderByNumber", params, Category::Core));

    params = Vec::new();
    params.push(Json::Str(ctx.hash.clone()));
    out.push(probe("header_by_hash", "eth_getHeaderByHash", params, Category::Core));

    params = Vec::new();
    params.push(Json::Str(hex_of(ctx.number)));
    out.push(
        probe(
            "reth_get_balance_changes_in_block",
            "reth_getBalanceChangesInBlock",
            params,
            Category::Extended,
        ),
    );

    params = Vec::new();
    params.push(Json::Str(hex_of(ctx.number)));
    out.push(probe("trace_block", "trace_block", params, Category::Trace));

    params = Vec::new();
    params.push(filter_json(ctx.number, ctx.number, None, None));
    out.push(probe("logs", "eth_getLogs", params, Category::Core));

    proof {
        assert(calls_view(out@) =~~= spec_block_probes(ctx@));
    }
    out
}

/// Builds the per-transaction probes of the catalog.
pub fn tx_probes(n: u64, block_hash: &String, tx: &TxContext) -> (r: Vec<ProbeCall>)
    ensures
        calls_view(r@) == spec_tx_probes(n, block_hash@, tx@),
{
    let mut out: Vec<ProbeCall> = Vec::new();
    let mut params: Vec<Json>;

    if let Some(a) = &tx.first_log_address {
        params = Vec::new();
        params.push(filter_json(n, n, Some(a), None));
        out.push(probe("logs", "eth_getLogs", params, Category::Core));
        proof {
            assert(out@.last()@.params =~~= seq![spec_filter(n, n, Some(a@), None)]);
            assert(out@.last()@ =~~= probe_v(
                "logs"@,
                "eth_getLogs"@,
                seq![spec_filter(n, n, Some(a@), None)],
                Category::Core,
            ));
        }
    }
    if let Some(t) = &tx.last_log_topic {
        params = Vec::new();
        params.push(filter_json(n, n, None, Some(t)));
        out.push(probe("logs", "eth_getLogs", params, Category::Core));
        proof {
            assert(out@.last()@.params =~~= seq![spec_filter(n, n, None, Some(t@))]);
            assert(out@.last()@ =~~= probe_v(
                "logs"@,
                "eth_getLogs"@,
                seq![spec_filter(n, n, None, Some(t@))],
                Category::Core,
            ));
        }
    }

    params = Vec::new();
    params.push(Json::Str(tx.hash.clone()));
    out.push(probe("raw_transaction_by_hash", "eth_getRawTransactionByHash", params, Category::Core));
    proof {
        assert(out@.last()@.params =~~= seq![JsonV::Str(tx@.hash)]);
        assert(out@.last()@ =~~= probe_v(
            "raw_transaction_by_hash"@,
            "eth_getRawTransactionByHash"@,
            seq![JsonV::Str(tx@.hash)],
            Category::Core,
        ));
    }

    params = Vec::new();
    params.push(Json::Str(tx.hash.clone()));
    out.push(probe("transaction_by_hash", "eth_getTransactionByHash", params, Category::Core));
    proof {
        assert(out@.last()@.params =~~= seq![JsonV::Str(tx@.hash)]);
        assert(out@.last()@ =~~= probe_v(
            "transaction_by_hash"@,
            "eth_getTransactionByHash"@,
            seq![JsonV::Str(tx@.hash)],
            Category::Core,
        ));
    }

    params = Vec::new();
    params.push(Json::Str(block_hash.clone()));
    params.push(Json::Str(hex_of(tx.index)));
    out.push(
        probe(
            "raw_transaction_by_block_hash_and_index",
            "eth_getRawTransactionByBlockHashAndIndex",
            params,
            Category::Core,
        ),
    );
    proof {
        assert(out@.last()@.params =~~= seq![
            JsonV::Str(block_hash@),
            JsonV::Str(spec_hex(tx@.index)),
        ]);
        assert(out@.last()@ =~~= probe_v(
            "raw_transaction_by_block_hash_and_index"@,
            "eth_getRawTransactionByBlockHashAndIndex"@,
            seq![JsonV::Str(block_hash@), JsonV::Str(spec_hex(tx@.index))],
            Category::Core,
        ));
    }

    params = Vec::new();
    params.push(Json::Str(block_hash.clone()));
    params.push(Json::Str(hex_of(tx.index)));
    out.push(
        probe(
            "transaction_by_block_hash_and_index",
            "eth_getTransactionByBlockHashAndIndex",
            params,
            Category::Core,
        ),
    );
    proof {
        assert(out@.last()@.params =~~= seq![
            JsonV::Str(block_hash@),
            JsonV::Str(spec_hex(tx@.index)),
        ]);
        assert(out@.last()@ =~~= probe_v(
            "transaction_by_block_hash_and_index"@,
            "eth_getTransactionByBlockHashAndIndex"@,
            seq![JsonV::Str(block_hash@), JsonV::Str(spec_hex(tx@.index))],
            Category::Core,
        ));
    }

    params = Vec::new();
    params.push(Json::Str(hex_of(n)));
    params.push(Json::Str(hex_of(tx.index)));
    out.push(
        probe(
            "raw_transaction_by_block_number_and_index",
            "eth_getRawTransactionByBlockNumberAndIndex",
            params,
            Category::Core,
        ),
    );
    proof {
        assert(out@.last()@.params =~~= seq![
            JsonV::Str(spec_hex(n)),
            JsonV::Str(spec_hex(tx@.index)),
        ]);
        assert(out@.last()@ =~~= probe_v(
            "raw_transaction_by_block_number_and_index"@,
            "eth_getRawTransactionByBlockNumberAndIndex"@,
            seq![JsonV::Str(spec_hex(n)), JsonV::Str(spec_hex(tx@.index))],
            Category::Core,
        ));
    }

    params = Vec::new();
    params.push(Json::Str(hex_of(n)));
    params.push(Json::Str(hex_of(tx.index)));
    out.push(
        probe(
            "transaction_by_block_number_and_index",
            "eth_getTransactionByBlockNumberAndIndex",
            params,
            Category::Core,
        ),
    );
    proof {
        assert(out@.last()@.params =~~= seq![
            JsonV::Str(spec_hex(n)),
            JsonV::Str(spec_hex(tx@.index)),
        ]);
        assert(out@.last()@ =~~= probe_v(
            "transaction_by_block_number_and_index"@,
            "eth_getTransactionByBlockNumberAndIndex"@,
            seq![JsonV::Str(spec_hex(n)), JsonV::Str(spec_hex(tx@.index))],
            Category::Core,
        ));
    }

    params = Vec::new();
    params.push(Json::Str(tx.hash.clone()));
    out.push(probe("transaction_receipt", "eth_getTransactionReceipt", params, Category::Core));
    proof {
        assert(out@.last()@.params =~~= seq![JsonV::Str(tx@.hash)]);
        assert(out@.last()@ =~~= probe_v(
            "transaction_receipt"@,
            "eth_getTransactionReceipt"@,
            seq![JsonV::Str(tx@.hash)],
            Category::Core,
        ));
    }

    params = Vec::new();
    params.push(Json::Str(tx.sender.clone()));
    params.push(Json::Str(hex_of(n)));
    out.push(probe("transaction_count", "eth_getTransactionCount", params, Category::Core));
    proof {
        assert(out@.last()@.params =~~= seq![JsonV::Str(tx@.sender), JsonV::Str(spec_hex(n))]);
        assert(out@.last()@ =~~= probe_v(
            "transaction_count"@,
            "eth_getTransactionCount"@,
            seq![JsonV::Str(tx@.sender), JsonV::Str(spec_hex(n))],
            Category::Core,
        ));
    }

    params = Vec::new();
    params.push(Json::Str(tx.sender.clone()));
    params.push(Json::Str(hex_of(n)));
    out.push(probe("balance", "eth_getBalance", params, Category::Core));
    proof {
        assert(out@.last()@.params =~~= seq![JsonV::Str(tx@.sender), JsonV::Str(spec_hex(n))]);
        assert(out@.last()@ =~~= probe_v(
            "balance"@,
            "eth_getBalance"@,
            seq![JsonV::Str(tx@.sender), JsonV::Str(spec_hex(n))],
            Category::Core,
        ));
    }

    params = Vec::new();
    params.push(Json::Str(tx.hash.clone()));
    let mut opts: Vec<(String, Json)> = Vec::new();
    opts.push((String::from_str("tracer"), Json::Str(String::from_str("callTracer"))));
    proof {
        assert(opts@.len() == 1);
        assert(opts@[0].0@ == "tracer"@);
        assert(opts@[0].1@ == JsonV::Str("callTracer"@));
    }
    let tracer = Json::Obj(opts);
    proof {
        assert(tracer@ is Obj);
        assert(tracer@->Obj_0.len() == 1);
        assert(tracer@->Obj_0[0] == ("tracer"@, JsonV::Str("callTracer"@)));
        assert(tracer@->Obj_0 =~~= seq![("tracer"@, JsonV::Str("callTracer"@))]);
        assert(tracer@ =~~= JsonV::Obj(seq![("tracer"@, JsonV::Str("callTracer"@))]));
    }
    params.push(tracer);
    out.push(probe("debug_trace_transaction", "debug_traceTransaction", params, Category::Trace));
    proof {
        assert(out@.last()@.params =~~= seq![
            JsonV::Str(tx@.hash),
            JsonV::Obj(seq![("tracer"@, JsonV::Str("callTracer"@))]),
        ]);
        assert(out@.last()@ =~~= probe_v(
            "debug_trace_transaction"@,
            "debug_traceTransaction"@,
            seq![JsonV::Str(tx@.hash), JsonV::Obj(seq![("tracer"@, JsonV::Str("callTracer"@))])],
            Category::Trace,
        ));
    }

    proof {
        assert(calls_view(out@) =~~= spec_tx_probes(n, block_hash@, tx@));
    }
    out
}

/// Builds the whole per-block catalog.
pub fn block_catalog(ctx: &BlockContext) -> (r: Vec<ProbeCall>)
    ensures
        calls_view(r@) == spec_block_catalog(ctx@),
{
    let mut out = block_probes(ctx);
    let mut i: usize = 0;
    proof {
        assert(calls_view(out@) + spec_tx_probes_from(ctx@, 0) =~= spec_block_probes(ctx@)
            + spec_tx_probes_from(ctx@, 0));
    }
    while i < ctx.txs.len()
        invariant
            i <= ctx.txs@.len(),
            ctx@.txs.len() == ctx.txs@.len(),
            calls_view(out@) + spec_tx_probes_from(ctx@, i as nat) == spec_block_catalog(ctx@),
        decreases ctx.txs@.len() - i,
    {
        let ghost pre = calls_view(out@);
        let mut part = tx_probes(ctx.number, &ctx.hash, &ctx.txs[i]);
        let ghost pv = calls_view(part@);
        out.append(&mut part);
        proof {
            assert(ctx@.txs[i as int] == ctx.txs@[i as int]@);
            assert(pv == spec_tx_probes(ctx@.number, ctx@.hash, ctx@.txs[i as int]));
            assert(calls_view(out@) =~= pre + pv);
            assert(spec_tx_probes_from(ctx@, i as nat) == pv + spec_tx_probes_from(
                ctx@,
                i as nat + 1,
            ));
            assert((pre + pv) + spec_tx_probes_from(ctx@, i as nat + 1) =~= pre + (pv
                + spec_tx_probes_from(ctx@, i as nat + 1)));
        }
        i += 1;
    }
    proof {
        assert(spec_tx_probes_from(ctx@, ctx@.txs.len()) =~= Seq::<ProbeCallV>::empty());
        assert(calls_view(out@) =~= spec_block_catalog(ctx@));
    }
    out
}

/// Builds the per-range catalog.
pub fn range_catalog(start: u64, end: u64) -> (r: Vec<ProbeCall>)
    ensures
        calls_view(r@) == spec_range_catalog(start, end),
{
    let mut out: Vec<ProbeCall> = Vec::new();
    let mut params: Vec<Json> = Vec::new();
    params.push(filter_json(start, end, None, None));
    out.push(probe("logs", "eth_getLogs", params, Category::Core));
    proof {
        assert(calls_view(out@) =~~= spec_range_catalog(start, end));
    }
    out
}

} // verus!
