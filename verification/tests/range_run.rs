//! Driving the range aggregator through whole runs.

use rpc_tester::json::Json;
use rpc_tester::outcome::ProbeOutcome;
use rpc_tester::probe::{ProbeCall, RunConfig};
use rpc_tester::report::{render, report_passed};
use rpc_tester::run::{RangeRun, RunAction, RunEvent};

fn cfg_core_only() -> RunConfig {
    RunConfig { use_tracing: false, use_reth: false, use_all_txes: false }
}

fn cfg_all() -> RunConfig {
    RunConfig { use_tracing: true, use_reth: true, use_all_txes: true }
}

fn obj(fields: Vec<(&str, Json)>) -> Json {
    Json::Obj(fields.into_iter().map(|(k, v)| (k.to_string(), v)).collect())
}

fn s(text: &str) -> Json {
    Json::Str(text.to_string())
}

fn block_100(txs: Vec<Json>) -> Json {
    obj(vec![
        ("hash", s("0xabc")),
        ("number", s("0x64")),
        ("transactions", Json::Arr(txs)),
    ])
}

fn tx(hash: &str, from: &str) -> Json {
    obj(vec![("hash", s(hash)), ("from", s(from))])
}

/// Replies that make both endpoints agree on every call.
fn agreeing_pairs(calls: &[ProbeCall]) -> Vec<(Result<Json, String>, Result<Json, String>)> {
    calls
        .iter()
        .map(|c| {
            let reply = |c: &ProbeCall| obj(vec![("method", s(&c.method))]);
            (Ok(reply(c)), Ok(reply(c)))
        })
        .collect()
}

fn expect_issue(action: RunAction) -> Vec<ProbeCall> {
    match action {
        RunAction::IssueCalls { calls } => calls,
        other => panic!("expected calls to be issued, got {}", action_kind(&other)),
    }
}

fn action_kind(a: &RunAction) -> &'static str {
    match a {
        RunAction::FetchBlock { .. } => "a block fetch",
        RunAction::FetchReceipts { .. } => "a receipt fetch",
        RunAction::IssueCalls { .. } => "issued calls",
        RunAction::Finish => "completion",
        RunAction::Abort { .. } => "an abort",
    }
}

#[test]
fn empty_block_run_passes() {
    // Block range 100..=100, no transactions, trace and extended
    // disabled: one block unit with every probe agreeing, one range unit,
    // overall pass.
    let (mut run, action) = RangeRun::new(cfg_core_only(), 100, 100);
    assert!(matches!(action, RunAction::FetchBlock { number: 100 }));

    let calls = expect_issue(run.step(RunEvent::BlockFetched {
        result: Ok(Some(block_100(vec![]))),
    }));
    // Only the ten core block probes are called; the extended and trace
    // probes are gated off without any call.
    assert_eq!(calls.len(), 10);
    assert!(calls.iter().all(|c| c.name != "trace_block"
        && c.name != "reth_get_balance_changes_in_block"));

    let range_calls = expect_issue(run.step(RunEvent::CallsCompleted {
        pairs: agreeing_pairs(&calls),
    }));
    assert_eq!(range_calls.len(), 1);
    assert_eq!(range_calls[0].name, "logs");

    let done = run.step(RunEvent::CallsCompleted { pairs: agreeing_pairs(&range_calls) });
    assert!(matches!(done, RunAction::Finish));

    // The report lists every catalog probe, the gated ones as passing.
    assert_eq!(run.units.len(), 2);
    assert_eq!(run.units[0].title, "Block Number 100");
    assert_eq!(run.units[0].outcomes.len(), 12);
    assert!(run.units[0]
        .outcomes
        .iter()
        .all(|(_, o)| matches!(o, ProbeOutcome::Match)));
    assert_eq!(run.units[1].title, "100..=100");
    assert_eq!(run.units[1].outcomes.len(), 1);
    assert!(report_passed(&run.units));
    let text = render(&run.units);
    assert!(text.contains("Block Number 100 ok\n"));
    assert!(text.contains("100..=100 ok\n"));
}

#[test]
fn balance_mismatch_is_the_only_failure() {
    // Same setup with one transaction whose balance differs between the
    // endpoints: exactly one failing probe, all others agree.
    let (mut run, _) = RangeRun::new(cfg_core_only(), 100, 100);
    let fetch = run.step(RunEvent::BlockFetched {
        result: Ok(Some(block_100(vec![tx("0xdead", "0xfeed")]))),
    });
    let hashes = match fetch {
        RunAction::FetchReceipts { hashes } => hashes,
        other => panic!("expected a receipt fetch, got {}", action_kind(&other)),
    };
    assert_eq!(hashes, vec!["0xdead".to_string()]);

    // The receipt exists but exposes no logs.
    let receipt = obj(vec![("logs", Json::Arr(vec![]))]);
    let calls = expect_issue(run.step(RunEvent::ReceiptsFetched { result: Ok(vec![receipt]) }));
    // Ten core block probes plus nine core transaction probes.
    assert_eq!(calls.len(), 19);

    let pairs: Vec<(Result<Json, String>, Result<Json, String>)> = calls
        .iter()
        .map(|c| {
            if c.name == "balance" {
                (Ok(Json::Num("1000".to_string())), Ok(Json::Num("2000".to_string())))
            } else {
                let reply = |c: &ProbeCall| obj(vec![("method", s(&c.method))]);
                (Ok(reply(c)), Ok(reply(c)))
            }
        })
        .collect();
    let range_calls = expect_issue(run.step(RunEvent::CallsCompleted { pairs }));
    let done = run.step(RunEvent::CallsCompleted { pairs: agreeing_pairs(&range_calls) });
    assert!(matches!(done, RunAction::Finish));

    let unit = &run.units[0];
    let failing: Vec<_> = unit
        .outcomes
        .iter()
        .filter(|(_, o)| !matches!(o, ProbeOutcome::Match))
        .collect();
    assert_eq!(failing.len(), 1);
    assert_eq!(failing[0].0, "balance");
    match &failing[0].1 {
        ProbeOutcome::Mismatch { value_a, value_b } => {
            assert_eq!(value_a.to_text(), "1000");
            assert_eq!(value_b.to_text(), "2000");
        }
        _ => panic!("the balance probe should be a mismatch"),
    }
    assert!(!report_passed(&run.units));
    let text = render(&run.units);
    assert!(text.contains("Block Number 100 FAILED\n"));
    assert!(text.contains("    balance: FAILED\n"));
    assert!(text.contains("-1000"));
    assert!(text.contains("+2000"));
    assert!(text.contains("100..=100 ok\n"));
}

#[test]
fn unreachable_endpoint_reports_every_probe_as_its_error() {
    // Side B unreachable for the whole run, all categories enabled so no
    // probe is gated off: every probe reports side B's failure, none
    // agrees; the truth fetch itself still succeeds.
    let (mut run, _) = RangeRun::new(cfg_all(), 100, 100);
    let calls = expect_issue(run.step(RunEvent::BlockFetched {
        result: Ok(Some(block_100(vec![]))),
    }));
    assert_eq!(calls.len(), 12);

    let down = |calls: &[ProbeCall]| -> Vec<(Result<Json, String>, Result<Json, String>)> {
        calls
            .iter()
            .map(|c| {
                let reply = obj(vec![("method", s(&c.method))]);
                (Ok(reply), Err("connection refused".to_string()))
            })
            .collect()
    };
    let range_calls = expect_issue(run.step(RunEvent::CallsCompleted { pairs: down(&calls) }));
    let done = run.step(RunEvent::CallsCompleted { pairs: down(&range_calls) });
    assert!(matches!(done, RunAction::Finish));

    for unit in &run.units {
        for (name, o) in &unit.outcomes {
            match o {
                ProbeOutcome::ErrorB { message } => assert_eq!(message, "connection refused"),
                _ => panic!("probe {} should report side B's error", name),
            }
        }
    }
    assert!(!report_passed(&run.units));
    let text = render(&run.units);
    assert!(text.contains("## rpc2 error: connection refused\n"));
    assert!(!text.contains(" ok\n"));
}

#[test]
fn runs_over_identical_replies_yield_identical_reports() {
    // Determinism: the same events produce the same report, twice.
    let run_once = || {
        let (mut run, _) = RangeRun::new(cfg_core_only(), 100, 101);
        let calls = expect_issue(run.step(RunEvent::BlockFetched {
            result: Ok(Some(block_100(vec![]))),
        }));
        let next = run.step(RunEvent::CallsCompleted { pairs: agreeing_pairs(&calls) });
        assert!(matches!(next, RunAction::FetchBlock { number: 101 }));
        let block_101 = obj(vec![
            ("hash", s("0xdef")),
            ("number", s("0x65")),
            ("transactions", Json::Arr(vec![])),
        ]);
        let calls2 = expect_issue(run.step(RunEvent::BlockFetched { result: Ok(Some(block_101)) }));
        let range_calls = expect_issue(run.step(RunEvent::CallsCompleted {
            pairs: agreeing_pairs(&calls2),
        }));
        let done = run.step(RunEvent::CallsCompleted { pairs: agreeing_pairs(&range_calls) });
        assert!(matches!(done, RunAction::Finish));
        render(&run.units)
    };
    assert_eq!(run_once(), run_once());
}

#[test]
fn missing_truth_block_aborts_the_run() {
    let (mut run, _) = RangeRun::new(cfg_core_only(), 100, 100);
    let action = run.step(RunEvent::BlockFetched { result: Ok(None) });
    match action {
        RunAction::Abort { message } => {
            assert_eq!(message, "truth endpoint has no block 100");
        }
        other => panic!("expected an abort, got {}", action_kind(&other)),
    }
}

#[test]
fn failed_truth_fetch_aborts_the_run() {
    let (mut run, _) = RangeRun::new(cfg_core_only(), 100, 100);
    let action = run.step(RunEvent::BlockFetched { result: Err("timeout".to_string()) });
    match action {
        RunAction::Abort { message } => {
            assert_eq!(message, "truth block fetch failed: timeout");
        }
        other => panic!("expected an abort, got {}", action_kind(&other)),
    }
}

#[test]
fn malformed_truth_block_aborts_the_run() {
    let (mut run, _) = RangeRun::new(cfg_core_only(), 100, 100);
    // The block number denotes 101, not the requested 100.
    let wrong = obj(vec![
        ("hash", s("0xabc")),
        ("number", s("0x65")),
        ("transactions", Json::Arr(vec![])),
    ]);
    let action = run.step(RunEvent::BlockFetched { result: Ok(Some(wrong)) });
    match action {
        RunAction::Abort { message } => {
            assert_eq!(message, "malformed truth block 100");
        }
        other => panic!("expected an abort, got {}", action_kind(&other)),
    }
}

#[test]
fn wrong_reply_count_aborts_the_run() {
    let (mut run, _) = RangeRun::new(cfg_core_only(), 100, 100);
    let calls = expect_issue(run.step(RunEvent::BlockFetched {
        result: Ok(Some(block_100(vec![]))),
    }));
    assert_eq!(calls.len(), 10);
    let action = run.step(RunEvent::CallsCompleted { pairs: vec![] });
    match action {
        RunAction::Abort { message } => {
            assert_eq!(message, "reply count differs from issued call count");
        }
        other => panic!("expected an abort, got {}", action_kind(&other)),
    }
}

#[test]
fn unawaited_event_aborts_the_run() {
    let (mut run, _) = RangeRun::new(cfg_core_only(), 100, 100);
    let action = run.step(RunEvent::CallsCompleted { pairs: vec![] });
    match action {
        RunAction::Abort { message } => {
            assert_eq!(message, "event does not match the awaited reply");
        }
        other => panic!("expected an abort, got {}", action_kind(&other)),
    }
}

#[test]
fn only_first_transaction_is_probed_by_default() {
    let (mut run, _) = RangeRun::new(cfg_core_only(), 100, 100);
    let fetch = run.step(RunEvent::BlockFetched {
        result: Ok(Some(block_100(vec![tx("0xaa", "0x01"), tx("0xbb", "0x02")]))),
    });
    match fetch {
        RunAction::FetchReceipts { hashes } => assert_eq!(hashes, vec!["0xaa".to_string()]),
        other => panic!("expected a receipt fetch, got {}", action_kind(&other)),
    }
}

#[test]
fn all_transactions_are_probed_when_asked() {
    let cfg = RunConfig { use_all_txes: true, ..cfg_core_only() };
    let (mut run, _) = RangeRun::new(cfg, 100, 100);
    let fetch = run.step(RunEvent::BlockFetched {
        result: Ok(Some(block_100(vec![tx("0xaa", "0x01"), tx("0xbb", "0x02")]))),
    });
    match fetch {
        RunAction::FetchReceipts { hashes } => {
            assert_eq!(hashes, vec!["0xaa".to_string(), "0xbb".to_string()]);
        }
        other => panic!("expected a receipt fetch, got {}", action_kind(&other)),
    }
}

#[test]
fn receipt_logs_add_filter_probes() {
    let (mut run, _) = RangeRun::new(cfg_core_only(), 100, 100);
    run.step(RunEvent::BlockFetched {
        result: Ok(Some(block_100(vec![tx("0xdead", "0xfeed")]))),
    });
    let log = obj(vec![
        ("address", s("0xcafe")),
        ("topics", Json::Arr(vec![s("0xt0"), s("0xt1")])),
    ]);
    let receipt = obj(vec![("logs", Json::Arr(vec![log]))]);
    let calls = expect_issue(run.step(RunEvent::ReceiptsFetched { result: Ok(vec![receipt]) }));
    // Two opportunistic log filters join the nineteen core probes.
    assert_eq!(calls.len(), 21);
    let log_filters: Vec<_> = calls
        .iter()
        .filter(|c| c.name == "logs" && c.params[0].to_text().contains("0xcafe"))
        .collect();
    assert_eq!(log_filters.len(), 1);
    assert!(calls
        .iter()
        .any(|c| c.name == "logs" && c.params[0].to_text().contains("0xt0")));
}

#[test]
fn missing_receipt_skips_log_probes() {
    let (mut run, _) = RangeRun::new(cfg_core_only(), 100, 100);
    run.step(RunEvent::BlockFetched {
        result: Ok(Some(block_100(vec![tx("0xdead", "0xfeed")]))),
    });
    let calls = expect_issue(run.step(RunEvent::ReceiptsFetched { result: Ok(vec![Json::Null]) }));
    assert_eq!(calls.len(), 19);
}

#[test]
fn replaying_the_same_replies_gives_the_same_report() {
    // Determinism through the replay entry point: two replays over the
    // same reply sequence end in identical reports.
    let cfg = cfg_core_only();
    let (mut probe_run, _) = rpc_tester::run::RangeRun::new(cfg, 100, 100);
    let calls = expect_issue(probe_run.step(RunEvent::BlockFetched {
        result: Ok(Some(block_100(vec![]))),
    }));
    let range_calls = expect_issue(probe_run.step(RunEvent::CallsCompleted {
        pairs: agreeing_pairs(&calls),
    }));

    let make_events = || {
        vec![
            RunEvent::BlockFetched { result: Ok(Some(block_100(vec![])))},
            RunEvent::CallsCompleted { pairs: agreeing_pairs(&calls) },
            RunEvent::CallsCompleted { pairs: agreeing_pairs(&range_calls) },
        ]
    };
    let r1 = rpc_tester::run::replay(cfg, 100, 100, make_events());
    let r2 = rpc_tester::run::replay(cfg, 100, 100, make_events());
    assert_eq!(render(&r1.units), render(&r2.units));
    assert!(report_passed(&r1.units));
    assert!(report_passed(&r2.units));
}

#[test]
fn failed_receipt_fetch_aborts_the_run() {
    let (mut run, _) = RangeRun::new(cfg_core_only(), 100, 100);
    run.step(RunEvent::BlockFetched {
        result: Ok(Some(block_100(vec![tx("0xdead", "0xfeed")]))),
    });
    let action = run.step(RunEvent::ReceiptsFetched { result: Err("timeout".to_string()) });
    match action {
        RunAction::Abort { message } => {
            assert_eq!(message, "truth receipt fetch failed: timeout");
        }
        other => panic!("expected an abort, got {}", action_kind(&other)),
    }
}

#[test]
fn malformed_receipt_aborts_the_run() {
    let (mut run, _) = RangeRun::new(cfg_core_only(), 100, 100);
    run.step(RunEvent::BlockFetched {
        result: Ok(Some(block_100(vec![tx("0xdead", "0xfeed")]))),
    });
    // A receipt that is neither null nor an object with a log list.
    let action = run.step(RunEvent::ReceiptsFetched {
        result: Ok(vec![Json::Bool(true)]),
    });
    match action {
        RunAction::Abort { message } => {
            assert_eq!(message, "malformed truth receipts for block 100");
        }
        other => panic!("expected an abort, got {}", action_kind(&other)),
    }
}

#[test]
fn wrong_receipt_count_aborts_the_run() {
    let (mut run, _) = RangeRun::new(cfg_core_only(), 100, 100);
    run.step(RunEvent::BlockFetched {
        result: Ok(Some(block_100(vec![tx("0xdead", "0xfeed")]))),
    });
    let action = run.step(RunEvent::ReceiptsFetched { result: Ok(vec![]) });
    match action {
        RunAction::Abort { message } => {
            assert_eq!(message, "malformed truth receipts for block 100");
        }
        other => panic!("expected an abort, got {}", action_kind(&other)),
    }
}
