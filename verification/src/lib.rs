//! Parser for the console transcript of a build-and-test run.
//!
//! The input is the free-form text that the build tool prints: optional
//! build-progress lines, then one or more test suites (a header line, the
//! individual test lines, an optional block of captured failure messages,
//! and a summary line with the aggregate counts), or, when the build
//! itself failed, a compile-error message that becomes a single synthetic
//! failing suite.  The parser turns that text into a list of [`Suite`]
//! values; every parsing function is specified against a mathematical
//! description of the grammar over the input's characters.

mod header;
pub mod locality;
pub mod props;
mod suite;
mod utility_parsers;

pub use header::{
    blocking, cargo_header, compiling, downloaded, downloading, finished, installing, updating,
};
pub use suite::failure::{fail_line, fail_opt, failure, failures, Failure};
pub use suite::result_line::{suite_result, SuiteResult};
pub use suite::{
    find_message_by_name, handle_parsed_suite, suite_count, suite_line, suites_parser,
    test_result, test_results, Suite, Test,
};
pub use utility_parsers::{digits, ok_or_failed, rest_of_line};

use crate::header::{cargo_header_at, spec_cargo_header};
use crate::suite::{
    spec_suites_parser, suites_parser_at, suites_view, SuiteView, TestView,
};
use crate::utility_parsers::{
    find_from, match_at, skip_ws, spec_find, spec_match_at, spec_skip_ws, spec_ws_tag, ws_tag,
    Scanner,
};
use vstd::prelude::*;
use vstd::string::StringExecFns;

verus! {

/// Index of the first NUL character at or after `pos`, or the end of the
/// input: the compile-error message runs up to there.
pub open spec fn spec_message_end(s: Seq<char>, pos: int) -> int
    decreases s.len() - pos,
{
    if 0 <= pos && pos < s.len() && s[pos] != '\0' {
        spec_message_end(s, pos + 1)
    } else {
        pos
    }
}

/// The optional bracketed error-code tag after the `error` literal:
/// when a `[` stands there and a closing `]` follows somewhere, both and
/// everything between them are consumed; otherwise nothing is.
pub open spec fn spec_error_code(s: Seq<char>, pos: int) -> int {
    if spec_match_at(s, pos, "["@) {
        match spec_find(s, pos + "["@.len(), "]"@) {
            Some(e) => e + "]"@.len(),
            None => pos,
        }
    } else {
        pos
    }
}

/// The synthetic suite reported for a failed build: one failing test named
/// "compile failed" carrying the captured message.
pub open spec fn spec_compile_fail_suite(msg: Seq<char>) -> SuiteView {
    SuiteView {
        name: "unknown"@,
        state: "fail"@,
        passed: 0,
        failed: 1,
        ignored: 0,
        measured: 0,
        total: 1,
        tests: seq![
            TestView { name: "compile failed"@, status: "fail"@, error: Some(msg) }
        ],
    }
}

/// The compile-error shape: the literal `error`, an optional bracketed
/// error code, a colon, then everything up to the first NUL character or
/// the end of the input as the captured message.
pub open spec fn spec_compile_error(s: Seq<char>, pos: int) -> Option<(int, SuiteView)> {
    match spec_ws_tag(s, pos, "error"@) {
        Some(p1) => {
            let p2 = spec_error_code(s, p1);
            let a = spec_skip_ws(s, p2);
            if spec_match_at(s, a, ":"@) {
                let p3 = spec_skip_ws(s, a + ":"@.len());
                let e = spec_message_end(s, p3);
                Some((e, spec_compile_fail_suite(s.subrange(p3, e))))
            } else {
                None
            }
        },
        None => None,
    }
}

/// The whole transcript: the preamble is skipped, then one or more suites
/// are parsed; only when not even one suite matches is the compile-error
/// shape tried from the same position.  Trailing unconsumed input is not
/// an error.
pub open spec fn spec_cargo_test_result(s: Seq<char>) -> Option<(int, Seq<SuiteView>)> {
    let h = spec_cargo_header(s, 0);
    match spec_suites_parser(s, h) {
        Some(r) => Some(r),
        None => match spec_compile_error(s, h) {
            Some((q, sv)) => Some((q, seq![sv])),
            None => None,
        },
    }
}

/// Scan to the first NUL character at or after `pos`, or the end.
fn message_end_at(sc: &Scanner, pos: usize) -> (r: usize)
    requires
        pos <= sc.chars@.len(),
    ensures
        r == spec_message_end(sc.chars@, pos as int),
        pos <= r <= sc.chars@.len(),
{
    let n: usize = sc.chars.len();
    let mut i: usize = pos;
    while i < n
        invariant
            pos <= i <= n,
            n == sc.chars@.len(),
            spec_message_end(sc.chars@, pos as int) == spec_message_end(sc.chars@, i as int),
        ensures
            i == spec_message_end(sc.chars@, pos as int),
        decreases n - i,
    {
        if sc.at(i) == '\0' {
            break;
        }
        i = i + 1;
    }
    i
}

/// Parse the compile-error shape at `pos`.
fn compile_error_at(sc: &Scanner, pos: usize) -> (r: Option<(usize, Suite)>)
    requires
        sc.wf(),
        pos <= sc.chars@.len(),
    ensures
        match r {
            Some((q, sv)) => spec_compile_error(sc.chars@, pos as int) == Some((q as int, sv@))
                && q <= sc.chars@.len(),
            None => spec_compile_error(sc.chars@, pos as int) is None,
        },
{
    proof {
        reveal_strlit("[");
        reveal_strlit("]");
        reveal_strlit(":");
    }
    let n: usize = sc.chars.len();
    let p1 = match ws_tag(sc, pos, "error") {
        Some(p) => p,
        None => {
            return None;
        },
    };
    let p2: usize;
    if match_at(sc, p1, "[") {
        match find_from(sc, p1 + 1, "]") {
            Some(e) => {
                p2 = e + 1;
            },
            None => {
                p2 = p1;
            },
        }
    } else {
        p2 = p1;
    }
    let a = skip_ws(sc, p2);
    if match_at(sc, a, ":") {
        let p3 = skip_ws(sc, a + 1);
        let e = message_end_at(sc, p3);
        let msg = sc.substr(p3, e);
        let tests: Vec<Test> = vec![
            Test {
                name: String::from_str("compile failed"),
                status: String::from_str("fail"),
                error: Some(msg),
            },
        ];
        let sv = Suite {
            name: String::from_str("unknown"),
            state: String::from_str("fail"),
            passed: 0,
            failed: 1,
            ignored: 0,
            measured: 0,
            total: 1,
            tests,
        };
        proof {
            assert(sv@.tests =~= spec_compile_fail_suite(
                sc.chars@.subrange(p3 as int, e as int),
            ).tests);
        }
        Some((e, sv))
    } else {
        None
    }
}

/// Parse a whole transcript.  On success the result holds the position of
/// the first unconsumed character and the suites in the order they stand
/// in the input; `None` means that neither the suites shape nor the
/// compile-error shape was recognized.
///
/// Every returned suite's `total` is the sum of its `passed`, `failed` and
/// `ignored` counts; the length of its test list is independent of that
/// sum, since tests that were not printed as lines are still counted.
pub fn cargo_test_result_parser(s: &str) -> (r: Option<(usize, Vec<Suite>)>)
    ensures
        match r {
            Some((q, suites)) => spec_cargo_test_result(s@) == Some(
                (q as int, suites_view(suites@)),
            ) && q <= s@.len(),
            None => spec_cargo_test_result(s@) is None,
        },
        match r {
            Some((q, suites)) => forall|i: int|
                0 <= i < suites@.len() ==> (#[trigger] suites@[i]@).total == suites@[i]@.passed
                    + suites@[i]@.failed + suites@[i]@.ignored,
            None => true,
        },
{
    let sc = Scanner::new(s);
    let h = cargo_header_at(&sc, 0);
    match suites_parser_at(&sc, h) {
        Some((q, ss)) => {
            proof {
                assert(spec_cargo_test_result(s@) == Some((q as int, suites_view(ss@))));
                crate::props::lemma_parsed_totals(s@, q as int, suites_view(ss@));
                assert forall|i: int| 0 <= i < ss@.len() implies (#[trigger] ss@[i]@).total
                    == ss@[i]@.passed + ss@[i]@.failed + ss@[i]@.ignored by {
                    assert(suites_view(ss@)[i] == ss@[i]@);
                }
            }
            Some((q, ss))
        },
        None => {
            match compile_error_at(&sc, h) {
                Some((q, sv)) => {
                    let mut one: Vec<Suite> = Vec::new();
                    one.push(sv);
                    proof {
                        assert(suites_view(one@) =~= seq![sv@]);
                        assert(spec_cargo_test_result(s@) == Some(
                            (q as int, suites_view(one@)),
                        ));
                        crate::props::lemma_parsed_totals(s@, q as int, suites_view(one@));
                        assert forall|i: int| 0 <= i < one@.len() implies (
                        #[trigger] one@[i]@).total == one@[i]@.passed + one@[i]@.failed
                            + one@[i]@.ignored by {
                            assert(suites_view(one@)[i] == one@[i]@);
                        }
                    }
                    Some((q, one))
                },
                None => None,
            }
        },
    }
}

} // verus!
