//! The suite-level parsers: header line, count line, test lines and the
//! failure block, each on its own input.

use cargo_results::{Failure, SuiteResult, Test};

fn char_len(s: &str) -> usize {
    s.chars().count()
}

#[test]
fn mod_it_should_parse_suite_line() {
    let output = "Running target/debug/deps/docker_command-be014e20fbd07382\n";
    assert_eq!(
        cargo_results::suite_line(output),
        Some((
            char_len(output),
            "target/debug/deps/docker_command-be014e20fbd07382".to_string()
        ))
    );
}

#[test]
fn mod_it_should_parse_suite_count() {
    let output = "running 0 tests\n";
    assert_eq!(cargo_results::suite_count(output), Some(char_len(output)));
}

#[test]
fn mod_it_should_parse_test_result() {
    let output = "test it_runs_a_command ... ok";
    assert_eq!(
        cargo_results::test_result(output),
        Some((
            char_len(output),
            Test {
                name: "it_runs_a_command".to_string(),
                status: "pass".to_string(),
                error: None,
            }
        ))
    );
}

#[test]
fn mod_it_should_parse_test_results() {
    let output = "test tests::it_should_parse_first_line ... ok
test tests::it_should_parse_a_status_line ... ok
test tests::it_should_parse_test_output ... ok
test tests::it_should_parse_suite_line ... FAILED
";
    let (consumed, tests) = cargo_results::test_results(output);
    assert_eq!(consumed, char_len(output));
    assert_eq!(
        tests,
        vec![
            Test {
                name: "tests::it_should_parse_first_line".to_string(),
                status: "pass".to_string(),
                error: None,
            },
            Test {
                name: "tests::it_should_parse_a_status_line".to_string(),
                status: "pass".to_string(),
                error: None,
            },
            Test {
                name: "tests::it_should_parse_test_output".to_string(),
                status: "pass".to_string(),
                error: None,
            },
            Test {
                name: "tests::it_should_parse_suite_line".to_string(),
                status: "fail".to_string(),
                error: None,
            },
        ]
    );
}

#[test]
fn result_line_it_should_parse_a_suite_result() {
    let output = "test result: FAILED. 3 passed; 1 failed; 0 ignored; 0 measured; 0 filtered out";
    assert_eq!(
        cargo_results::suite_result(output),
        Some((
            char_len(output),
            SuiteResult {
                state: "fail".to_string(),
                passed: 3,
                failed: 1,
                ignored: 0,
                total: 4,
                measured: 0,
            }
        ))
    );
}

#[test]
fn failure_test_fail_line() {
    let output = "---- fail stdout ----";
    assert_eq!(
        cargo_results::fail_line(output),
        Some((char_len(output), "fail".to_string()))
    );
}

#[test]
fn failure_test_failure() {
    let output = "---- fail stdout ----
  thread 'fail' panicked at 'assertion failed: `(left == right)` (left: `1`, right: `2`)', tests/integration_test.rs:16
note: Run with `RUST_BACKTRACE=1` for a backtrace.

";
    assert_eq!(
        cargo_results::failure(output),
        Some((
            char_len(output),
            Failure {
                name: "fail".to_string(),
                error: "thread 'fail' panicked at 'assertion failed: `(left == right)` \
                        (left: `1`, right: `2`)', tests/integration_test.rs:16"
                    .to_string(),
            }
        ))
    );
}

#[test]
fn failure_test_failures() {
    let output = "---- fail stdout ----
          thread 'fail' panicked at 'assertion failed: `(left == right)` (left: `1`, right: `2`)', tests/integration_test.rs:16
note: Run with `RUST_BACKTRACE=1` for a backtrace.

        ---- fail2 stdout ----
          thread 'fail2' panicked at 'assertion failed: `(left == right)` (left: `3`, right: `2`)', tests/integration_test.rs:22


";
    // One newline stays unconsumed after the last section's blank line.
    let (consumed, fs) = cargo_results::failures(output).unwrap();
    assert_eq!(consumed, char_len(output) - 1);
    assert_eq!(
        fs,
        vec![
            Failure {
                name: "fail".to_string(),
                error: "thread 'fail' panicked at 'assertion failed: `(left == right)` (left: `1`, right: `2`)', tests/integration_test.rs:16".to_string(),
            },
            Failure {
                name: "fail2".to_string(),
                error: "thread 'fail2' panicked at 'assertion failed: `(left == right)` (left: `3`, right: `2`)', tests/integration_test.rs:22".to_string(),
            },
        ]
    );
}

#[test]
fn test_fail_opt() {
    let output = "failures:

---- fail stdout ----
thread 'fail' panicked at 'assertion failed: `(left == right)` (left: `1`, right: `2`)', tests/integration_test.rs:16
note: Run with `RUST_BACKTRACE=1` for a backtrace.

---- fail2 stdout ----
thread 'fail2' panicked at 'assertion failed: `(left == right)` (left: `3`, right: `2`)', tests/integration_test.rs:22


failures:
        fail
        fail2

test result: FAILED. 1 passed; 2 failed; 0 ignored; 0 measured; 0 filtered out
";
    let (consumed, fs) = cargo_results::fail_opt(output);
    let remainder: String = output.chars().skip(consumed).collect();
    assert_eq!(
        remainder,
        "test result: FAILED. 1 passed; 2 failed; 0 ignored; 0 measured; 0 filtered out\n"
    );
    assert_eq!(
        fs,
        Some(vec![
            Failure {
                name: "fail".to_string(),
                error: "thread 'fail' panicked at 'assertion failed: `(left == right)` (left: `1`, right: `2`)', tests/integration_test.rs:16".to_string(),
            },
            Failure {
                name: "fail2".to_string(),
                error: "thread 'fail2' panicked at 'assertion failed: `(left == right)` (left: `3`, right: `2`)', tests/integration_test.rs:22".to_string(),
            },
        ])
    );
}
