//! Behaviour of the parser on hand-picked transcripts: the documented
//! examples, the edge cases of the grammar, and the rejected shapes.

use cargo_results::{cargo_test_result_parser, Suite, Test};

fn char_len(s: &str) -> usize {
    s.chars().count()
}

#[test]
fn minimal_success_single_suite() {
    let output = "Running bin-x\nrunning 1 tests\ntest foo ... ok\n\ntest result: ok. 1 passed; 0 failed; 0 ignored; 0 measured; 0 filtered out\n";
    let (consumed, suites) = cargo_test_result_parser(output).unwrap();
    assert_eq!(consumed, char_len(output));
    assert_eq!(
        suites,
        vec![Suite {
            name: "bin-x".to_string(),
            state: "pass".to_string(),
            passed: 1,
            failed: 0,
            ignored: 0,
            measured: 0,
            total: 1,
            tests: vec![Test {
                name: "foo".to_string(),
                status: "pass".to_string(),
                error: None,
            }],
        }]
    );
}

#[test]
fn failure_correlation_captures_message() {
    let output = "Running bin-y\nrunning 1 tests\ntest fail ... FAILED\n\nfailures:\n\n---- fail stdout ----\nboom\n\n\nfailures:\n    fail\n\ntest result: FAILED. 0 passed; 1 failed; 0 ignored; 0 measured; 0 filtered out\n";
    let (_, suites) = cargo_test_result_parser(output).unwrap();
    assert_eq!(
        suites[0].tests,
        vec![Test {
            name: "fail".to_string(),
            status: "fail".to_string(),
            error: Some("boom".to_string()),
        }]
    );
}

#[test]
fn compile_error_after_preamble() {
    let output = "   Compiling broken v0.1.0\nerror[E0369]: mismatched types\n...details...\n";
    let (consumed, suites) = cargo_test_result_parser(output).unwrap();
    assert_eq!(consumed, char_len(output));
    assert_eq!(suites.len(), 1);
    assert_eq!(suites[0].name, "unknown");
    assert_eq!(suites[0].state, "fail");
    assert_eq!(suites[0].failed, 1);
    assert_eq!(suites[0].total, 1);
    assert_eq!(
        suites[0].tests,
        vec![Test {
            name: "compile failed".to_string(),
            status: "fail".to_string(),
            error: Some("mismatched types\n...details...\n".to_string()),
        }]
    );
}

#[test]
fn trailing_noise_is_ignored() {
    let output = "Running bin-z\nrunning 0 tests\n\ntest result: ok. 0 passed; 0 failed; 0 ignored; 0 measured; 0 filtered out\n\nerror: test failed";
    let (consumed, suites) = cargo_test_result_parser(output).unwrap();
    assert_eq!(suites.len(), 1);
    assert_eq!(suites[0].name, "bin-z");
    assert_eq!(suites[0].state, "pass");
    let remainder: String = output.chars().skip(consumed).collect();
    assert_eq!(remainder, "error: test failed");
}

#[test]
fn preamble_lines_do_not_change_the_result() {
    let body = "Running bin-x\nrunning 1 tests\ntest foo ... ok\n\ntest result: ok. 1 passed; 0 failed; 0 ignored; 0 measured; 0 filtered out\n";
    let preamble = "   Compiling foo v0.1.0\n Downloading bar v0.2.0\n    Finished dev target(s) in 1.0 secs\n";
    let with_preamble = format!("{}{}", preamble, body);
    let (q1, suites1) = cargo_test_result_parser(body).unwrap();
    let (q2, suites2) = cargo_test_result_parser(&with_preamble).unwrap();
    assert_eq!(suites1, suites2);
    assert_eq!(q2, q1 + char_len(preamble));
}

#[test]
fn reparsing_remainder_is_independent() {
    let output = "Running bin-z\nrunning 0 tests\n\ntest result: ok. 0 passed; 0 failed; 0 ignored; 0 measured; 0 filtered out\n\nerror: test failed";
    let (consumed, suites) = cargo_test_result_parser(output).unwrap();
    let remainder: String = output.chars().skip(consumed).collect();
    // Re-parsing the remainder is its own, independent parse: here the
    // leftover text happens to match the compile-error shape.
    let (_, second) = cargo_test_result_parser(&remainder).unwrap();
    assert_eq!(second[0].name, "unknown");
    // The first result is unchanged, and a fresh parse of the whole
    // input reproduces it exactly.
    let (again_consumed, again_suites) = cargo_test_result_parser(output).unwrap();
    assert_eq!(again_consumed, consumed);
    assert_eq!(again_suites, suites);
    assert_eq!(suites[0].name, "bin-z");
}

#[test]
fn failing_test_without_matching_block_keeps_no_error() {
    let output = "Running bin-a\nrunning 2 tests\ntest one ... FAILED\ntest two ... FAILED\n\nfailures:\n\n---- two stdout ----\nonly this one\n\n\nfailures:\n    one\n    two\n\ntest result: FAILED. 0 passed; 2 failed; 0 ignored; 0 measured; 0 filtered out\n";
    let (_, suites) = cargo_test_result_parser(output).unwrap();
    assert_eq!(
        suites[0].tests,
        vec![
            Test {
                name: "one".to_string(),
                status: "fail".to_string(),
                error: None,
            },
            Test {
                name: "two".to_string(),
                status: "fail".to_string(),
                error: Some("only this one".to_string()),
            },
        ]
    );
}

#[test]
fn duplicate_failure_names_take_the_first_message() {
    let output = "Running bin-b\nrunning 1 tests\ntest dup ... FAILED\n\nfailures:\n\n---- dup stdout ----\nfirst message\n\n---- dup stdout ----\nsecond message\n\n\nfailures:\n    dup\n\ntest result: FAILED. 0 passed; 1 failed; 0 ignored; 0 measured; 0 filtered out\n";
    let (_, suites) = cargo_test_result_parser(output).unwrap();
    assert_eq!(suites[0].tests[0].error, Some("first message".to_string()));
}

#[test]
fn total_counts_ignored_tests_that_are_not_printed() {
    let output = "Running bin-c\nrunning 2 tests\ntest a ... ok\n\ntest result: ok. 1 passed; 0 failed; 1 ignored; 0 measured; 0 filtered out\n";
    let (_, suites) = cargo_test_result_parser(output).unwrap();
    assert_eq!(suites[0].total, 2);
    assert_eq!(suites[0].passed, 1);
    assert_eq!(suites[0].ignored, 1);
    assert_eq!(suites[0].tests.len(), 1);
}

#[test]
fn lines_with_carriage_returns_parse_too() {
    let output = "Running bin-d\r\nrunning 0 tests\r\n\r\ntest result: ok. 0 passed; 0 failed; 0 ignored; 0 measured; 0 filtered out\r\n";
    let (consumed, suites) = cargo_test_result_parser(output).unwrap();
    assert_eq!(consumed, char_len(output));
    assert_eq!(suites[0].name, "bin-d");
    assert_eq!(suites[0].total, 0);
}

#[test]
fn unrecognized_transcript_is_rejected() {
    assert_eq!(cargo_test_result_parser("some unrelated text"), None);
}

#[test]
fn empty_input_is_rejected() {
    assert_eq!(cargo_test_result_parser(""), None);
}

#[test]
fn suite_without_summary_is_rejected() {
    let output = "Running bin-e\nrunning 1 tests\ntest foo ... ok\n";
    assert_eq!(cargo_test_result_parser(output), None);
}

#[test]
fn count_overflow_is_rejected() {
    assert_eq!(cargo_results::digits("9223372036854775807"), Some((19, i64::MAX)));
    assert_eq!(cargo_results::digits("9223372036854775808"), None);
    assert_eq!(cargo_results::digits("99999999999999999999"), None);
}

#[test]
fn digits_reject_non_numbers() {
    assert_eq!(cargo_results::digits(""), None);
    assert_eq!(cargo_results::digits("abc"), None);
}

#[test]
fn status_accepts_only_the_two_tokens() {
    assert_eq!(cargo_results::ok_or_failed("OK"), None);
    assert_eq!(cargo_results::ok_or_failed("failed"), None);
    assert_eq!(cargo_results::ok_or_failed(""), None);
}

#[test]
fn rest_of_line_needs_a_terminator() {
    assert_eq!(cargo_results::rest_of_line("no line end"), None);
    assert_eq!(cargo_results::rest_of_line("lone\rcarriage"), None);
}

#[test]
fn backtrace_hint_is_stripped_only_as_a_line_of_its_own() {
    let output = "---- t stdout ----\nmessage line\nnote: Run with `RUST_BACKTRACE=1` for a backtrace.\n\n";
    let (_, f) = cargo_results::failure(output).unwrap();
    assert_eq!(f.error, "message line");
    let plain = "---- t stdout ----\na multi line\nmessage body\n\n";
    let (_, g) = cargo_results::failure(plain).unwrap();
    assert_eq!(g.error, "a multi line\nmessage body");
}

#[test]
fn fail_line_takes_the_name_before_the_first_space() {
    assert_eq!(
        cargo_results::fail_line("---- tests::a stdout ----"),
        Some((25, "tests::a".to_string()))
    );
    assert_eq!(cargo_results::fail_line("no dashes"), None);
}

#[test]
fn handle_parsed_suite_annotates_tests() {
    let tests = vec![
        Test {
            name: "x".to_string(),
            status: "fail".to_string(),
            error: None,
        },
    ];
    let failures = vec![cargo_results::Failure {
        name: "x".to_string(),
        error: "went wrong".to_string(),
    }];
    let result = cargo_results::SuiteResult {
        state: "fail".to_string(),
        passed: 0,
        failed: 1,
        ignored: 0,
        total: 1,
        measured: 0,
    };
    let s = cargo_results::handle_parsed_suite(
        "unit".to_string(),
        tests,
        Some(failures),
        result,
    );
    assert_eq!(s.tests[0].error, Some("went wrong".to_string()));
    assert_eq!(s.name, "unit");
    assert_eq!(s.total, 1);
}

#[test]
fn find_message_by_name_picks_the_first_match() {
    let failures = vec![
        cargo_results::Failure {
            name: "a".to_string(),
            error: "first".to_string(),
        },
        cargo_results::Failure {
            name: "a".to_string(),
            error: "second".to_string(),
        },
    ];
    assert_eq!(
        cargo_results::find_message_by_name("a", &failures),
        Some("first".to_string())
    );
    assert_eq!(cargo_results::find_message_by_name("b", &failures), None);
}
