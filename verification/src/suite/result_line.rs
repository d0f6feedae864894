//! The trailing summary line of a suite:
//! `test result: <status>. N passed; N failed; N ignored; N measured; N filtered out`.

use crate::utility_parsers::{
    digits_at, lemma_spec_digits_nonneg, spec_digits, spec_skip_ws, spec_status, spec_tag,
    spec_ws_tag, status_at, tag_at, ws_tag, Scanner,
};
use vstd::prelude::*;

verus! {

/// Aggregate counts of one suite, as printed on its summary line.
/// `total` is derived: the passed, failed and ignored counts added up
/// (measured tests are tracked separately and excluded).
#[derive(Debug)]
pub struct SuiteResult {
    pub state: String,
    pub passed: i64,
    pub failed: i64,
    pub ignored: i64,
    pub total: i64,
    pub measured: i64,
}

/// Mathematical model of a [`SuiteResult`].
pub ghost struct SuiteResultView {
    pub state: Seq<char>,
    pub passed: int,
    pub failed: int,
    pub ignored: int,
    pub total: int,
    pub measured: int,
}

impl View for SuiteResult {
    type V = SuiteResultView;

    open spec fn view(&self) -> SuiteResultView {
        SuiteResultView {
            state: self.state@,
            passed: self.passed as int,
            failed: self.failed as int,
            ignored: self.ignored as int,
            total: self.total as int,
            measured: self.measured as int,
        }
    }
}

impl PartialEq for SuiteResult {
    fn eq(&self, other: &Self) -> (r: bool) {
        self.state == other.state && self.passed == other.passed && self.failed == other.failed
            && self.ignored == other.ignored && self.total == other.total && self.measured
            == other.measured
    }
}

impl vstd::std_specs::cmp::PartialEqSpecImpl for SuiteResult {
    open spec fn obeys_eq_spec() -> bool {
        true
    }

    open spec fn eq_spec(&self, other: &Self) -> bool {
        self@ == other@
    }
}

/// A count followed by its label.
pub open spec fn spec_count_then(s: Seq<char>, pos: int, label: Seq<char>) -> Option<(int, int)> {
    match spec_digits(s, pos) {
        Some((q, v)) => match spec_tag(s, q, label) {
            Some(q2) => Some((q2, v)),
            None => None,
        },
        None => None,
    }
}

/// The summary line.  The filtered-out count is parsed and discarded; the
/// result's `total` is the sum of the passed, failed and ignored counts,
/// and the line is rejected when that sum does not fit a 64-bit signed
/// integer.
pub open spec fn spec_suite_result(s: Seq<char>, pos: int) -> Option<(int, SuiteResultView)> {
    match spec_ws_tag(s, pos, "test result: "@) {
        Some(p1) => match spec_status(s, p1) {
            Some((p2, st)) => match spec_tag(s, p2, "."@) {
                Some(p3) => match spec_count_then(s, p3, "passed;"@) {
                    Some((p4, passed)) => match spec_count_then(s, p4, "failed;"@) {
                        Some((p5, failed)) => match spec_count_then(s, p5, "ignored;"@) {
                            Some((p6, ignored)) => match spec_count_then(s, p6, "measured;"@) {
                                Some((p7, measured)) => match spec_digits(s, p7) {
                                    Some((p8, _filtered)) => match spec_ws_tag(
                                        s,
                                        p8,
                                        "filtered out"@,
                                    ) {
                                        Some(p9) => {
                                            if passed + failed + ignored > i64::MAX as int {
                                                None
                                            } else {
                                                Some(
                                                    (
                                                        p9,
                                                        SuiteResultView {
                                                            state: st,
                                                            passed: passed,
                                                            failed: failed,
                                                            ignored: ignored,
                                                            total: passed + failed + ignored,
                                                            measured: measured,
                                                        },
                                                    ),
                                                )
                                            }
                                        },
                                        None => None,
                                    },
                                    None => None,
                                },
                                None => None,
                            },
                            None => None,
                        },
                        None => None,
                    },
                    None => None,
                },
                None => None,
            },
            None => None,
        },
        None => None,
    }
}

/// Match a count and its label at `pos`.
fn count_then(sc: &Scanner, pos: usize, label: &str) -> (r: Option<(usize, i64)>)
    requires
        pos <= sc.chars@.len(),
    ensures
        match r {
            Some((q, v)) => spec_count_then(sc.chars@, pos as int, label@) == Some(
                (q as int, v as int),
            ) && q <= sc.chars@.len() && v >= 0,
            None => spec_count_then(sc.chars@, pos as int, label@) is None,
        },
{
    proof {
        lemma_spec_digits_nonneg(sc.chars@, pos as int);
    }
    match digits_at(sc, pos) {
        Some((q, v)) => match tag_at(sc, q, label) {
            Some(q2) => Some((q2, v)),
            None => None,
        },
        None => None,
    }
}

/// Parse the summary line at `pos`.
pub fn suite_result_at(sc: &Scanner, pos: usize) -> (r: Option<(usize, SuiteResult)>)
    requires
        sc.wf(),
        pos <= sc.chars@.len(),
    ensures
        match r {
            Some((q, sr)) => spec_suite_result(sc.chars@, pos as int) == Some((q as int, sr@)) && q
                <= sc.chars@.len(),
            None => spec_suite_result(sc.chars@, pos as int) is None,
        },
{
    let p1 = match ws_tag(sc, pos, "test result: ") {
        Some(p) => p,
        None => {
            return None;
        },
    };
    let (p2, st) = match status_at(sc, p1) {
        Some(x) => x,
        None => {
            return None;
        },
    };
    let p3 = match tag_at(sc, p2, ".") {
        Some(p) => p,
        None => {
            return None;
        },
    };
    let (p4, passed) = match count_then(sc, p3, "passed;") {
        Some(x) => x,
        None => {
            return None;
        },
    };
    let (p5, failed) = match count_then(sc, p4, "failed;") {
        Some(x) => x,
        None => {
            return None;
        },
    };
    let (p6, ignored) = match count_then(sc, p5, "ignored;") {
        Some(x) => x,
        None => {
            return None;
        },
    };
    let (p7, measured) = match count_then(sc, p6, "measured;") {
        Some(x) => x,
        None => {
            return None;
        },
    };
    let (p8, _filtered) = match digits_at(sc, p7) {
        Some(x) => x,
        None => {
            return None;
        },
    };
    let p9 = match ws_tag(sc, p8, "filtered out") {
        Some(p) => p,
        None => {
            return None;
        },
    };
    if failed > i64::MAX - passed {
        return None;
    }
    let sub = passed + failed;
    if ignored > i64::MAX - sub {
        return None;
    }
    Some(
        (
            p9,
            SuiteResult {
                state: st,
                passed,
                failed,
                ignored,
                total: sub + ignored,
                measured,
            },
        ),
    )
}

/// Parse the summary line from the start of `s`.
pub fn suite_result(s: &str) -> (r: Option<(usize, SuiteResult)>)
    ensures
        match r {
            Some((q, sr)) => spec_suite_result(s@, 0) == Some((q as int, sr@)),
            None => spec_suite_result(s@, 0) is None,
        },
{
    let sc = Scanner::new(s);
    suite_result_at(&sc, 0)
}

} // verus!
