//! Classification of paired endpoint replies.

use rpc_tester::json::Json;
use rpc_tester::outcome::{probe_outcome, ProbeOutcome};

fn num(text: &str) -> Json {
    Json::Num(text.to_string())
}

#[test]
fn equal_replies_match() {
    let a = num("5");
    let b = num("5");
    assert!(matches!(probe_outcome(Ok(a), Ok(b)), ProbeOutcome::Match));
}

#[test]
fn permuted_replies_match() {
    let a = Json::Obj(vec![("x".to_string(), num("1")), ("y".to_string(), num("2"))]);
    let b = Json::Obj(vec![("y".to_string(), num("2")), ("x".to_string(), num("1"))]);
    assert!(matches!(probe_outcome(Ok(a), Ok(b)), ProbeOutcome::Match));
}

#[test]
fn different_replies_mismatch_with_both_values() {
    match probe_outcome(Ok(num("1")), Ok(num("2"))) {
        ProbeOutcome::Mismatch { value_a, value_b } => {
            assert_eq!(value_a.to_text(), "1");
            assert_eq!(value_b.to_text(), "2");
        }
        other => panic!("expected a mismatch, not {:?}", kind(&other)),
    }
}

#[test]
fn error_on_side_a_never_matches() {
    match probe_outcome(Err("boom".to_string()), Ok(num("1"))) {
        ProbeOutcome::ErrorA { message } => assert_eq!(message, "boom"),
        other => panic!("expected side A's error, not {:?}", kind(&other)),
    }
}

#[test]
fn error_on_side_b_never_matches() {
    match probe_outcome(Ok(num("1")), Err("boom".to_string())) {
        ProbeOutcome::ErrorB { message } => assert_eq!(message, "boom"),
        other => panic!("expected side B's error, not {:?}", kind(&other)),
    }
}

#[test]
fn double_error_reports_side_a() {
    match probe_outcome(Err("first".to_string()), Err("second".to_string())) {
        ProbeOutcome::ErrorA { message } => assert_eq!(message, "first"),
        other => panic!("expected side A's error, not {:?}", kind(&other)),
    }
}

fn kind(o: &ProbeOutcome) -> &'static str {
    match o {
        ProbeOutcome::Match => "a match",
        ProbeOutcome::Mismatch { .. } => "a mismatch",
        ProbeOutcome::ErrorA { .. } => "side A's error",
        ProbeOutcome::ErrorB { .. } => "side B's error",
    }
}
