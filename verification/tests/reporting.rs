//! Exact report text for small reports.

use rpc_tester::json::Json;
use rpc_tester::outcome::ProbeOutcome;
use rpc_tester::report::{render, report_passed, TestUnit};

#[test]
fn empty_report_renders_header_and_rule() {
    let units: Vec<TestUnit> = vec![];
    assert_eq!(
        render(&units),
        "\n--- RPC Method Test Results ---\n--------------------------------\n"
    );
    assert!(report_passed(&units));
}

#[test]
fn passing_unit_renders_one_line() {
    let units = vec![TestUnit {
        title: "Block Number 7".to_string(),
        outcomes: vec![("balance".to_string(), ProbeOutcome::Match)],
    }];
    assert_eq!(
        render(&units),
        "\n--- RPC Method Test Results ---\nBlock Number 7 ok\n--------------------------------\n"
    );
    assert!(report_passed(&units));
}

#[test]
fn error_outcome_renders_the_side_and_message() {
    let units = vec![TestUnit {
        title: "Block Number 7".to_string(),
        outcomes: vec![
            ("logs".to_string(), ProbeOutcome::Match),
            ("balance".to_string(), ProbeOutcome::ErrorA { message: "timeout".to_string() }),
        ],
    }];
    assert_eq!(
        render(&units),
        "\n--- RPC Method Test Results ---\n\nBlock Number 7 FAILED\n    balance: FAILED\n## rpc1 error: timeout\n--------------------------------\n"
    );
    assert!(!report_passed(&units));
}

#[test]
fn mismatch_renders_a_line_diff() {
    // The diff marks removed lines from side A and added lines from
    // side B. If the diff were handed either input back unchanged, the
    // `-`/`+` prefixes below would be missing.
    let units = vec![TestUnit {
        title: "Block Number 7".to_string(),
        outcomes: vec![(
            "balance".to_string(),
            ProbeOutcome::Mismatch {
                value_a: Json::Num("1000".to_string()),
                value_b: Json::Num("2000".to_string()),
            },
        )],
    }];
    let text = render(&units);
    assert!(text.contains("    balance: FAILED\n"));
    assert!(text.contains("-1000"));
    assert!(text.contains("+2000"));
    assert!(!text.contains(" 1000"));
}

#[test]
fn equal_texts_diff_without_signs() {
    let units = vec![TestUnit {
        title: "t".to_string(),
        outcomes: vec![
            (
                // A hand-built outcome whose two sides render the same
                // text: every diff line comes back unchanged.
                "p".to_string(),
                ProbeOutcome::Mismatch {
                    value_a: Json::Arr(vec![Json::Num("1".to_string())]),
                    value_b: Json::Arr(vec![Json::Num("1".to_string())]),
                },
            ),
        ],
    }];
    let text = render(&units);
    assert!(text.contains(" [\n"));
    assert!(!text.contains("-[\n"));
    assert!(!text.contains("+[\n"));
}
