//! One test suite: its header line, the individual test lines, the
//! optional failure block and the summary line, combined into a [`Suite`]
//! by correlating captured failures with the tests they belong to.

pub mod failure;
pub mod result_line;

use crate::suite::failure::{
    fail_opt_at, failures_view, spec_fail_opt, Failure, FailureView,
};
use crate::suite::result_line::{spec_suite_result, suite_result_at, SuiteResult, SuiteResultView};
use crate::utility_parsers::{
    find_from, rest_of_line_at, skip_ws, space1_at, spec_find, spec_rest_of_line, spec_skip_ws,
    spec_space1, spec_status, spec_tag, spec_ws_tag, status_at, tag_at, ws_tag, Scanner,
};
use vstd::prelude::*;
use vstd::string::StringExecFns;

verus! {

/// One test's outcome: its printed name, its status ("pass" or "fail"),
/// and, for a failing test whose captured output was found in the suite's
/// failure block, that captured message.
#[derive(Debug)]
pub struct Test {
    pub name: String,
    pub status: String,
    pub error: Option<String>,
}

/// Mathematical model of a [`Test`].
pub ghost struct TestView {
    pub name: Seq<char>,
    pub status: Seq<char>,
    pub error: Option<Seq<char>>,
}

impl View for Test {
    type V = TestView;

    open spec fn view(&self) -> TestView {
        TestView {
            name: self.name@,
            status: self.status@,
            error: match self.error {
                Some(e) => Some(e@),
                None => None,
            },
        }
    }
}

impl PartialEq for Test {
    fn eq(&self, other: &Self) -> (r: bool) {
        let errors_eq: bool = match &self.error {
            Some(a) => match &other.error {
                Some(b) => a.eq(b),
                None => false,
            },
            None => match &other.error {
                Some(_) => false,
                None => true,
            },
        };
        self.name == other.name && self.status == other.status && errors_eq
    }
}

impl vstd::std_specs::cmp::PartialEqSpecImpl for Test {
    open spec fn obeys_eq_spec() -> bool {
        true
    }

    open spec fn eq_spec(&self, other: &Self) -> bool {
        self@ == other@
    }
}

/// The models of a sequence of tests.
pub open spec fn tests_view(ts: Seq<Test>) -> Seq<TestView> {
    Seq::new(ts.len(), |i: int| ts[i]@)
}

/// One suite: the name from its header line, the aggregate counts from its
/// summary line, and its tests in the order they were printed.
#[derive(Debug)]
pub struct Suite {
    pub name: String,
    pub state: String,
    pub passed: i64,
    pub failed: i64,
    pub ignored: i64,
    pub measured: i64,
    pub total: i64,
    pub tests: Vec<Test>,
}

/// Mathematical model of a [`Suite`].
pub ghost struct SuiteView {
    pub name: Seq<char>,
    pub state: Seq<char>,
    pub passed: int,
    pub failed: int,
    pub ignored: int,
    pub measured: int,
    pub total: int,
    pub tests: Seq<TestView>,
}

impl View for Suite {
    type V = SuiteView;

    open spec fn view(&self) -> SuiteView {
        SuiteView {
            name: self.name@,
            state: self.state@,
            passed: self.passed as int,
            failed: self.failed as int,
            ignored: self.ignored as int,
            measured: self.measured as int,
            total: self.total as int,
            tests: tests_view(self.tests@),
        }
    }
}

/// Element-wise comparison of two test lists.
fn tests_eq(a: &Vec<Test>, b: &Vec<Test>) -> (r: bool)
    ensures
        r == (tests_view(a@) == tests_view(b@)),
{
    if a.len() != b.len() {
        proof {
            assert(tests_view(a@).len() != tests_view(b@).len());
        }
        return false;
    }
    let mut i: usize = 0;
    while i < a.len()
        invariant
            0 <= i <= a@.len(),
            a@.len() == b@.len(),
            forall|j: int| 0 <= j < i ==> tests_view(a@)[j] == tests_view(b@)[j],
        ensures
            i == a@.len(),
            forall|j: int| 0 <= j < i ==> tests_view(a@)[j] == tests_view(b@)[j],
        decreases a@.len() - i,
    {
        if !(a[i] == b[i]) {
            proof {
                assert(tests_view(a@)[i as int] == a@[i as int]@);
                assert(tests_view(b@)[i as int] == b@[i as int]@);
            }
            return false;
        }
        i = i + 1;
    }
    proof {
        assert(tests_view(a@) =~= tests_view(b@));
    }
    true
}

impl PartialEq for Suite {
    fn eq(&self, other: &Self) -> (r: bool) {
        self.name == other.name && self.state == other.state && self.passed == other.passed
            && self.failed == other.failed && self.ignored == other.ignored && self.measured
            == other.measured && self.total == other.total && tests_eq(&self.tests, &other.tests)
    }
}

impl vstd::std_specs::cmp::PartialEqSpecImpl for Suite {
    open spec fn obeys_eq_spec() -> bool {
        true
    }

    open spec fn eq_spec(&self, other: &Self) -> bool {
        self@ == other@
    }
}

/// The message of the first failure with the given name, if any.
pub open spec fn spec_find_msg(name: Seq<char>, fs: Seq<FailureView>) -> Option<Seq<char>>
    decreases fs.len(),
{
    if fs.len() == 0 {
        None
    } else if fs[0].name == name {
        Some(fs[0].error)
    } else {
        spec_find_msg(name, fs.drop_first())
    }
}

/// The correlation rule: when a failure block was present, each test takes
/// the message of the first failure bearing its name (or none); without a
/// block the tests stay as printed.
pub open spec fn spec_annotate(tests: Seq<TestView>, fo: Option<Seq<FailureView>>) -> Seq<
    TestView,
> {
    match fo {
        Some(fs) => Seq::new(
            tests.len(),
            |i: int|
                TestView {
                    name: tests[i].name,
                    status: tests[i].status,
                    error: spec_find_msg(tests[i].name, fs),
                },
        ),
        None => tests,
    }
}

/// A whole suite assembled from its parsed parts.
pub open spec fn spec_mk_suite(
    name: Seq<char>,
    tests: Seq<TestView>,
    fo: Option<Seq<FailureView>>,
    res: SuiteResultView,
) -> SuiteView {
    SuiteView {
        name: name,
        state: res.state,
        passed: res.passed,
        failed: res.failed,
        ignored: res.ignored,
        measured: res.measured,
        total: res.total,
        tests: spec_annotate(tests, fo),
    }
}

/// The models of an optional list of failures.
pub open spec fn opt_failures_view(fo: Option<Vec<Failure>>) -> Option<Seq<FailureView>> {
    match fo {
        Some(fs) => Some(failures_view(fs@)),
        None => None,
    }
}

/// The message of the first failure named `name`, if any.
pub fn find_message_by_name(name: &str, failures: &Vec<Failure>) -> (r: Option<String>)
    ensures
        match r {
            Some(e) => spec_find_msg(name@, failures_view(failures@)) == Some(e@),
            None => spec_find_msg(name@, failures_view(failures@)) is None,
        },
{
    let key = String::from_str(name);
    let mut i: usize = 0;
    proof {
        assert(failures_view(failures@).skip(0) =~= failures_view(failures@));
    }
    loop
        invariant
            0 <= i <= failures@.len(),
            key@ == name@,
            spec_find_msg(name@, failures_view(failures@)) == spec_find_msg(
                name@,
                failures_view(failures@).skip(i as int),
            ),
        decreases failures@.len() - i,
    {
        if i >= failures.len() {
            proof {
                assert(failures_view(failures@).skip(i as int) =~= Seq::<FailureView>::empty());
            }
            return None;
        }
        if failures[i].name == key {
            proof {
                assert(failures_view(failures@).skip(i as int)[0] == failures@[i as int]@);
            }
            return Some(failures[i].error.clone());
        }
        proof {
            assert(failures_view(failures@).skip(i as int)[0] == failures@[i as int]@);
            assert(failures_view(failures@).skip(i as int).drop_first() =~= failures_view(
                failures@,
            ).skip(i + 1));
        }
        i = i + 1;
    }
}

/// Combine the parsed parts of one suite, applying the correlation rule.
pub fn handle_parsed_suite(
    name: String,
    tests: Vec<Test>,
    failures: Option<Vec<Failure>>,
    result: SuiteResult,
) -> (s: Suite)
    ensures
        s@ == spec_mk_suite(name@, tests_view(tests@), opt_failures_view(failures), result@),
{
    match failures {
        None => Suite {
            name,
            state: result.state,
            passed: result.passed,
            failed: result.failed,
            ignored: result.ignored,
            measured: result.measured,
            total: result.total,
            tests,
        },
        Some(xs) => {
            let mut annotated: Vec<Test> = Vec::new();
            let mut i: usize = 0;
            while i < tests.len()
                invariant
                    0 <= i <= tests@.len(),
                    annotated@.len() == i,
                    forall|j: int| #![trigger annotated@[j]]
                        0 <= j < i ==> annotated@[j]@ == (TestView {
                            name: tests@[j]@.name,
                            status: tests@[j]@.status,
                            error: spec_find_msg(tests@[j]@.name, failures_view(xs@)),
                        }),
                ensures
                    i == tests@.len(),
                    forall|j: int| #![trigger annotated@[j]]
                        0 <= j < i ==> annotated@[j]@ == (TestView {
                            name: tests@[j]@.name,
                            status: tests@[j]@.status,
                            error: spec_find_msg(tests@[j]@.name, failures_view(xs@)),
                        }),
                    annotated@.len() == i,
                decreases tests@.len() - i,
            {
                let err = find_message_by_name(tests[i].name.as_str(), &xs);
                annotated.push(
                    Test { error: err, name: tests[i].name.clone(), status: tests[i].status.clone() },
                );
                i = i + 1;
            }
            proof {
                assert(tests_view(annotated@) =~= spec_annotate(
                    tests_view(tests@),
                    Some(failures_view(xs@)),
                ));
            }
            Suite {
                name,
                state: result.state,
                passed: result.passed,
                failed: result.failed,
                ignored: result.ignored,
                measured: result.measured,
                total: result.total,
                tests: annotated,
            }
        },
    }
}

/// A suite's header line: `Running <name>` or `Doc-tests <name>`, the rest
/// of the line being the suite's name.
pub open spec fn spec_suite_line(s: Seq<char>, pos: int) -> Option<(int, Seq<char>)> {
    let hdr = match spec_ws_tag(s, pos, "Running"@) {
        Some(p) => Some(p),
        None => spec_ws_tag(s, pos, "Doc-tests"@),
    };
    match hdr {
        Some(p) => spec_rest_of_line(s, p),
        None => None,
    }
}

/// A suite's count line: `running <anything>`; the printed count is
/// discarded, the summary line being the authoritative source of counts.
pub open spec fn spec_suite_count(s: Seq<char>, pos: int) -> Option<int> {
    match spec_ws_tag(s, pos, "running"@) {
        Some(p) => match spec_rest_of_line(s, p) {
            Some((q, _)) => Some(q),
            None => None,
        },
        None => None,
    }
}

/// One test line: `test <name> ... <status>`, the name being everything up
/// to the ` ...` delimiter.  The parsed test carries no error yet.
pub open spec fn spec_test_result(s: Seq<char>, pos: int) -> Option<(int, TestView)> {
    match spec_tag(s, pos, "test"@) {
        Some(p1) => match spec_space1(s, p1) {
            Some(p2) => match spec_find(s, p2, " ..."@) {
                Some(e) => {
                    let p3 = spec_skip_ws(s, e + " ..."@.len());
                    match spec_status(s, p3) {
                        Some((p4, st)) => Some(
                            (
                                spec_skip_ws(s, p4),
                                TestView { name: s.subrange(p2, e), status: st, error: None },
                            ),
                        ),
                        None => None,
                    }
                },
                None => None,
            },
            None => None,
        },
        None => None,
    }
}

/// As many test lines as follow each other, each consuming input.
pub open spec fn spec_test_results(s: Seq<char>, pos: int) -> (int, Seq<TestView>)
    decreases s.len() - pos,
{
    match spec_test_result(s, pos) {
        Some((q, t)) => {
            if pos < q <= s.len() {
                let rest = spec_test_results(s, q);
                (rest.0, seq![t] + rest.1)
            } else {
                (pos, Seq::<TestView>::empty())
            }
        },
        None => (pos, Seq::<TestView>::empty()),
    }
}

/// One whole suite: header line, count line, test lines, optional failure
/// block, summary line, combined by the correlation rule.
pub open spec fn spec_suite_parser(s: Seq<char>, pos: int) -> Option<(int, SuiteView)> {
    match spec_suite_line(s, pos) {
        Some((p1, name)) => match spec_suite_count(s, p1) {
            Some(p2) => {
                let tests = spec_test_results(s, p2);
                let fo = spec_fail_opt(s, tests.0);
                match spec_suite_result(s, fo.0) {
                    Some((p5, res)) => Some((p5, spec_mk_suite(name, tests.1, fo.1, res))),
                    None => None,
                }
            },
            None => None,
        },
        None => None,
    }
}

/// As many suites as follow each other, each consuming input.
pub open spec fn spec_suites_from(s: Seq<char>, pos: int) -> (int, Seq<SuiteView>)
    decreases s.len() - pos,
{
    match spec_suite_parser(s, pos) {
        Some((q, sv)) => {
            if pos < q <= s.len() {
                let rest = spec_suites_from(s, q);
                (rest.0, seq![sv] + rest.1)
            } else {
                (pos, Seq::<SuiteView>::empty())
            }
        },
        None => (pos, Seq::<SuiteView>::empty()),
    }
}

/// One or more suites.
pub open spec fn spec_suites_parser(s: Seq<char>, pos: int) -> Option<(int, Seq<SuiteView>)> {
    match spec_suite_parser(s, pos) {
        Some(_) => Some(spec_suites_from(s, pos)),
        None => None,
    }
}

/// The models of a sequence of suites.
pub open spec fn suites_view(ss: Seq<Suite>) -> Seq<SuiteView> {
    Seq::new(ss.len(), |i: int| ss[i]@)
}

/// Parse a suite's header line at `pos`.
pub fn suite_line_at(sc: &Scanner, pos: usize) -> (r: Option<(usize, String)>)
    requires
        sc.wf(),
        pos <= sc.chars@.len(),
    ensures
        match r {
            Some((q, name)) => spec_suite_line(sc.chars@, pos as int) == Some((q as int, name@))
                && q <= sc.chars@.len(),
            None => spec_suite_line(sc.chars@, pos as int) is None,
        },
{
    let hdr = match ws_tag(sc, pos, "Running") {
        Some(p) => Some(p),
        None => ws_tag(sc, pos, "Doc-tests"),
    };
    match hdr {
        Some(p) => rest_of_line_at(sc, p),
        None => None,
    }
}

/// Parse a suite's count line at `pos`.
pub fn suite_count_at(sc: &Scanner, pos: usize) -> (r: Option<usize>)
    requires
        sc.wf(),
        pos <= sc.chars@.len(),
    ensures
        match r {
            Some(q) => spec_suite_count(sc.chars@, pos as int) == Some(q as int) && q
                <= sc.chars@.len(),
            None => spec_suite_count(sc.chars@, pos as int) is None,
        },
{
    match ws_tag(sc, pos, "running") {
        Some(p) => match rest_of_line_at(sc, p) {
            Some((q, _)) => Some(q),
            None => None,
        },
        None => None,
    }
}

/// Parse one test line at `pos`.
pub fn test_result_at(sc: &Scanner, pos: usize) -> (r: Option<(usize, Test)>)
    requires
        sc.wf(),
        pos <= sc.chars@.len(),
    ensures
        match r {
            Some((q, t)) => spec_test_result(sc.chars@, pos as int) == Some((q as int, t@)) && q
                <= sc.chars@.len(),
            None => spec_test_result(sc.chars@, pos as int) is None,
        },
{
    proof {
        reveal_strlit(" ...");
    }
    let n: usize = sc.chars.len();
    let p1 = match tag_at(sc, pos, "test") {
        Some(p) => p,
        None => {
            return None;
        },
    };
    let p2 = match space1_at(sc, p1) {
        Some(p) => p,
        None => {
            return None;
        },
    };
    let e = match find_from(sc, p2, " ...") {
        Some(p) => p,
        None => {
            return None;
        },
    };
    let name = sc.substr(p2, e);
    let p3 = skip_ws(sc, e + 4);
    let (p4, st) = match status_at(sc, p3) {
        Some(x) => x,
        None => {
            return None;
        },
    };
    let q = skip_ws(sc, p4);
    Some((q, Test { name, status: st, error: None }))
}

/// Parse as many test lines as follow each other at `pos`.
pub fn test_results_at(sc: &Scanner, pos: usize) -> (r: (usize, Vec<Test>))
    requires
        sc.wf(),
        pos <= sc.chars@.len(),
    ensures
        r.0 <= sc.chars@.len(),
        spec_test_results(sc.chars@, pos as int) == (r.0 as int, tests_view(r.1@)),
{
    let mut acc: Vec<Test> = Vec::new();
    let mut p: usize = pos;
    loop
        invariant
            sc.wf(),
            p <= sc.chars@.len(),
            spec_test_results(sc.chars@, pos as int).0 == spec_test_results(
                sc.chars@,
                p as int,
            ).0,
            spec_test_results(sc.chars@, pos as int).1 == tests_view(acc@) + spec_test_results(
                sc.chars@,
                p as int,
            ).1,
        ensures
            p <= sc.chars@.len(),
            spec_test_results(sc.chars@, pos as int) == (p as int, tests_view(acc@)),
        decreases sc.chars@.len() - p,
    {
        proof {
            assert(tests_view(acc@) + Seq::<TestView>::empty() =~= tests_view(acc@));
        }
        match test_result_at(sc, p) {
            None => {
                break;
            },
            Some((q, t)) => {
                if q <= p {
                    break;
                }
                acc.push(t);
                proof {
                    assert(tests_view(acc@) =~= tests_view(acc@.drop_last()) + seq![t@]);
                    assert(tests_view(acc@.drop_last()) + (seq![t@] + spec_test_results(
                        sc.chars@,
                        q as int,
                    ).1) =~= tests_view(acc@) + spec_test_results(sc.chars@, q as int).1);
                }
                p = q;
            },
        }
    }
    (p, acc)
}

/// Parse one whole suite at `pos`.
pub fn suite_parser_at(sc: &Scanner, pos: usize) -> (r: Option<(usize, Suite)>)
    requires
        sc.wf(),
        pos <= sc.chars@.len(),
    ensures
        match r {
            Some((q, sv)) => spec_suite_parser(sc.chars@, pos as int) == Some((q as int, sv@))
                && q <= sc.chars@.len(),
            None => spec_suite_parser(sc.chars@, pos as int) is None,
        },
{
    let (p1, name) = match suite_line_at(sc, pos) {
        Some(x) => x,
        None => {
            return None;
        },
    };
    let p2 = match suite_count_at(sc, p1) {
        Some(p) => p,
        None => {
            return None;
        },
    };
    let (p3, tests) = test_results_at(sc, p2);
    let (p4, fo) = fail_opt_at(sc, p3);
    let (p5, res) = match suite_result_at(sc, p4) {
        Some(x) => x,
        None => {
            return None;
        },
    };
    Some((p5, handle_parsed_suite(name, tests, fo, res)))
}

/// Parse one or more suites at `pos`.
pub fn suites_parser_at(sc: &Scanner, pos: usize) -> (r: Option<(usize, Vec<Suite>)>)
    requires
        sc.wf(),
        pos <= sc.chars@.len(),
    ensures
        match r {
            Some((q, ss)) => spec_suites_parser(sc.chars@, pos as int) == Some(
                (q as int, suites_view(ss@)),
            ) && q <= sc.chars@.len(),
            None => spec_suites_parser(sc.chars@, pos as int) is None,
        },
{
    match suite_parser_at(sc, pos) {
        None => {
            return None;
        },
        Some(_) => {
        },
    }
    let mut acc: Vec<Suite> = Vec::new();
    let mut p: usize = pos;
    loop
        invariant
            sc.wf(),
            p <= sc.chars@.len(),
            spec_suites_from(sc.chars@, pos as int).0 == spec_suites_from(sc.chars@, p as int).0,
            spec_suites_from(sc.chars@, pos as int).1 == suites_view(acc@) + spec_suites_from(
                sc.chars@,
                p as int,
            ).1,
        ensures
            p <= sc.chars@.len(),
            spec_suites_from(sc.chars@, pos as int) == (p as int, suites_view(acc@)),
        decreases sc.chars@.len() - p,
    {
        proof {
            assert(suites_view(acc@) + Seq::<SuiteView>::empty() =~= suites_view(acc@));
        }
        match suite_parser_at(sc, p) {
            None => {
                break;
            },
            Some((q, sv)) => {
                if q <= p {
                    break;
                }
                acc.push(sv);
                proof {
                    assert(suites_view(acc@) =~= suites_view(acc@.drop_last()) + seq![sv@]);
                    assert(suites_view(acc@.drop_last()) + (seq![sv@] + spec_suites_from(
                        sc.chars@,
                        q as int,
                    ).1) =~= suites_view(acc@) + spec_suites_from(sc.chars@, q as int).1);
                }
                p = q;
            },
        }
    }
    Some((p, acc))
}

/// Parse a suite's header line from the start of `s`.
pub fn suite_line(s: &str) -> (r: Option<(usize, String)>)
    ensures
        match r {
            Some((q, name)) => spec_suite_line(s@, 0) == Some((q as int, name@)),
            None => spec_suite_line(s@, 0) is None,
        },
{
    let sc = Scanner::new(s);
    suite_line_at(&sc, 0)
}

/// Parse a suite's count line from the start of `s`.
pub fn suite_count(s: &str) -> (r: Option<usize>)
    ensures
        match r {
            Some(q) => spec_suite_count(s@, 0) == Some(q as int),
            None => spec_suite_count(s@, 0) is None,
        },
{
    let sc = Scanner::new(s);
    suite_count_at(&sc, 0)
}

/// Parse one test line from the start of `s`.
pub fn test_result(s: &str) -> (r: Option<(usize, Test)>)
    ensures
        match r {
            Some((q, t)) => spec_test_result(s@, 0) == Some((q as int, t@)),
            None => spec_test_result(s@, 0) is None,
        },
{
    let sc = Scanner::new(s);
    test_result_at(&sc, 0)
}

/// Parse as many test lines as follow each other from the start of `s`.
pub fn test_results(s: &str) -> (r: (usize, Vec<Test>))
    ensures
        spec_test_results(s@, 0) == (r.0 as int, tests_view(r.1@)),
{
    let sc = Scanner::new(s);
    test_results_at(&sc, 0)
}

/// Parse one or more suites from the start of `s`.
pub fn suites_parser(s: &str) -> (r: Option<(usize, Vec<Suite>)>)
    ensures
        match r {
            Some((q, ss)) => spec_suites_parser(s@, 0) == Some((q as int, suites_view(ss@))),
            None => spec_suites_parser(s@, 0) is None,
        },
{
    let sc = Scanner::new(s);
    suites_parser_at(&sc, 0)
}

} // verus!
