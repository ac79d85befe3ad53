//! The endpoint set builders, the readiness gate and the chain-advance
//! decisions.

use rpc_tester::equality::RpcTester;
use rpc_tester::status::{
    advance_step, choose_etherscan_url, readiness_step, require_api_key, AdvanceAction, Readiness,
    TesterStatus,
};

#[test]
fn tester_starts_with_everything_disabled() {
    let t = RpcTester::new("a", "b");
    let cfg = t.run_config();
    assert!(!cfg.use_tracing && !cfg.use_reth && !cfg.use_all_txes);
    assert_eq!(t.rpc1, "a");
    assert_eq!(t.rpc2, "b");
    assert_eq!(*t.truth(), "b");
}

#[test]
fn tester_builders_set_their_flag() {
    let t = RpcTester::new("a", "b")
        .with_tracing(true)
        .with_reth(true)
        .with_all_txes(true)
        .with_truth("c");
    let cfg = t.run_config();
    assert!(cfg.use_tracing && cfg.use_reth && cfg.use_all_txes);
    assert_eq!(*t.truth(), "c");
    assert_eq!(t.rpc1, "a");
    assert_eq!(t.rpc2, "b");
}

#[test]
fn start_equality_fetches_the_first_block() {
    let t = RpcTester::new("a", "b");
    let (run, action) = t.start_equality(5, 9);
    assert_eq!(run.start, 5);
    assert_eq!(run.end, 9);
    assert_eq!(run.current, 5);
    assert!(matches!(action, rpc_tester::run::RunAction::FetchBlock { number: 5 }));
}

#[test]
fn default_status_is_all_zero() {
    let s = TesterStatus::default();
    assert!(!s.ready);
    assert_eq!(s.initial_height, 0);
    assert_eq!(s.tip, 0);
    assert_eq!(s.in_memory_first, 0);
}

#[test]
fn advance_waits_when_caught_up() {
    let (status, action) = advance_step(50, 50, 40, 10, 100, false);
    assert!(!status.ready);
    assert_eq!(status.tip, 50);
    assert_eq!(status.in_memory_first, 41);
    assert_eq!(status.initial_height, 10);
    assert_eq!(action, AdvanceAction::Wait);
}

#[test]
fn advance_moves_one_block_when_behind() {
    let (status, action) = advance_step(50, 60, 40, 10, 100, false);
    assert!(!status.ready);
    assert_eq!(action, AdvanceAction::Advance { next: 51 });
}

#[test]
fn advance_stops_after_enough_blocks() {
    let (status, action) = advance_step(110, 200, 90, 10, 100, false);
    assert!(status.ready);
    assert_eq!(action, AdvanceAction::Stop);
}

#[test]
fn advance_hands_out_the_test_range() {
    let (status, action) = advance_step(110, 200, 90, 10, 100, true);
    assert!(status.ready);
    assert_eq!(action, AdvanceAction::StopAndTest { start: 88, end: 110 });
}

#[test]
fn readiness_waits_while_syncing() {
    assert_eq!(readiness_step(true, 100, 100, 32), Readiness::Wait);
}

#[test]
fn readiness_waits_while_far_behind() {
    assert_eq!(readiness_step(false, 10, 100, 32), Readiness::Wait);
}

#[test]
fn readiness_yields_the_range_when_close() {
    assert_eq!(readiness_step(false, 96, 100, 32), Readiness::Range { start: 68, end: 100 });
    assert_eq!(readiness_step(false, 100, 100, 32), Readiness::Range { start: 68, end: 100 });
    assert_eq!(readiness_step(false, 120, 100, 32), Readiness::Range { start: 68, end: 100 });
}

#[test]
fn etherscan_url_prefers_the_provided_one() {
    assert_eq!(
        choose_etherscan_url(Some("u".to_string()), Some("d".to_string()), "mainnet"),
        Ok("u".to_string())
    );
    assert_eq!(choose_etherscan_url(None, Some("d".to_string()), "mainnet"), Ok("d".to_string()));
    assert_eq!(
        choose_etherscan_url(None, None, "mainnet"),
        Err("failed to get etherscan url for chain: mainnet".to_string())
    );
}

#[test]
fn api_key_is_required() {
    assert_eq!(require_api_key(Some("k".to_string()), "mainnet"), Ok("k".to_string()));
    assert_eq!(
        require_api_key(None, "mainnet"),
        Err("etherscan api key not found for rpc consensus client for chain: mainnet".to_string())
    );
}
