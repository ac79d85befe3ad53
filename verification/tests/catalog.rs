//! The probe catalog's shape: names, wire methods, argument lists and
//! category gates.

use rpc_tester::context::{BlockContext, TxContext};
use rpc_tester::json::Json;
use rpc_tester::probe::{
    block_catalog, category_enabled, range_catalog, Category, RunConfig,
};

fn no_tx_context() -> BlockContext {
    BlockContext { number: 100, hash: "0xabc".to_string(), txs: vec![] }
}

#[test]
fn block_catalog_without_transactions() {
    let cat = block_catalog(&no_tx_context());
    let names: Vec<&str> = cat.iter().map(|p| p.name.as_str()).collect();
    assert_eq!(
        names,
        vec![
            "block_by_hash",
            "block_by_number",
            "block_transaction_count_by_hash",
            "block_transaction_count_by_number",
            "block_uncles_count_by_hash",
            "block_uncles_count_by_number",
            "block_receipts",
            "header_by_number",
            "header_by_hash",
            "reth_get_balance_changes_in_block",
            "trace_block",
            "logs",
        ]
    );
}

#[test]
fn block_catalog_wire_methods_and_args() {
    let cat = block_catalog(&no_tx_context());
    assert_eq!(cat[0].method, "eth_getBlockByHash");
    assert!(matches!(&cat[0].params[0], Json::Str(h) if h == "0xabc"));
    assert!(matches!(cat[0].params[1], Json::Bool(true)));
    assert_eq!(cat[1].method, "eth_getBlockByNumber");
    assert!(matches!(&cat[1].params[0], Json::Str(t) if t == "0x64"));
    assert_eq!(cat[9].method, "reth_getBalanceChangesInBlock");
    assert_eq!(cat[11].method, "eth_getLogs");
    let filter = cat[11].params[0].to_text();
    assert_eq!(filter, "{\n  \"fromBlock\": \"0x64\",\n  \"toBlock\": \"0x64\"\n}");
}

#[test]
fn block_catalog_categories() {
    let cat = block_catalog(&no_tx_context());
    for (i, p) in cat.iter().enumerate() {
        let expected = match p.name.as_str() {
            "reth_get_balance_changes_in_block" => Category::Extended,
            "trace_block" => Category::Trace,
            _ => Category::Core,
        };
        assert_eq!(p.category, expected, "probe {}", i);
    }
}

#[test]
fn transaction_probes_follow_block_probes() {
    let mut ctx = no_tx_context();
    ctx.txs.push(TxContext {
        hash: "0xdead".to_string(),
        sender: "0xfeed".to_string(),
        index: 0,
        first_log_address: Some("0xcafe".to_string()),
        last_log_topic: Some("0xt0".to_string()),
    });
    let cat = block_catalog(&ctx);
    assert_eq!(cat.len(), 12 + 12);
    assert_eq!(cat[12].name, "logs");
    let by_addr = cat[12].params[0].to_text();
    assert!(by_addr.contains("\"address\": \"0xcafe\""));
    assert_eq!(cat[13].name, "logs");
    let by_topic = cat[13].params[0].to_text();
    assert!(by_topic.contains("\"topics\": [\n    \"0xt0\"\n  ]"));
    assert_eq!(cat[14].name, "raw_transaction_by_hash");
    assert_eq!(cat[21].name, "transaction_count");
    assert_eq!(cat[21].method, "eth_getTransactionCount");
    assert!(matches!(&cat[21].params[0], Json::Str(s) if s == "0xfeed"));
    assert_eq!(cat[23].name, "debug_trace_transaction");
    assert_eq!(cat[23].category, Category::Trace);
    assert!(matches!(&cat[23].params[1], Json::Obj(fields)
        if fields.len() == 1 && fields[0].0 == "tracer"
            && matches!(&fields[0].1, Json::Str(t) if t == "callTracer")));
}

#[test]
fn transaction_without_logs_has_no_log_probes() {
    let mut ctx = no_tx_context();
    ctx.txs.push(TxContext {
        hash: "0xdead".to_string(),
        sender: "0xfeed".to_string(),
        index: 0,
        first_log_address: None,
        last_log_topic: None,
    });
    let cat = block_catalog(&ctx);
    assert_eq!(cat.len(), 12 + 10);
    assert_eq!(cat[12].name, "raw_transaction_by_hash");
}

#[test]
fn range_catalog_is_one_log_filter() {
    let cat = range_catalog(100, 132);
    assert_eq!(cat.len(), 1);
    assert_eq!(cat[0].name, "logs");
    assert_eq!(cat[0].method, "eth_getLogs");
    let filter = cat[0].params[0].to_text();
    assert_eq!(filter, "{\n  \"fromBlock\": \"0x64\",\n  \"toBlock\": \"0x84\"\n}");
}

#[test]
fn category_gate_is_pure_configuration() {
    let none = RunConfig { use_tracing: false, use_reth: false, use_all_txes: false };
    let all = RunConfig { use_tracing: true, use_reth: true, use_all_txes: true };
    assert!(category_enabled(none, Category::Core));
    assert!(!category_enabled(none, Category::Extended));
    assert!(!category_enabled(none, Category::Trace));
    assert!(category_enabled(all, Category::Core));
    assert!(category_enabled(all, Category::Extended));
    assert!(category_enabled(all, Category::Trace));
}
