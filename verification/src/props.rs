//! Proved properties of the parser's specification: the count identity of
//! every returned suite, and the correlation between a test's error and
//! the suite's failure block.

use crate::suite::failure::FailureView;
use crate::suite::{
    spec_annotate, spec_find_msg, spec_suite_parser, spec_suites_from, spec_suites_parser,
    spec_test_results, SuiteView, TestView,
};
use crate::{spec_cargo_test_result, spec_compile_error};
use vstd::prelude::*;

verus! {

/// One parsed suite's `total` is the sum of its `passed`, `failed` and
/// `ignored` counts.
pub proof fn lemma_suite_parser_total(s: Seq<char>, pos: int)
    ensures
        spec_suite_parser(s, pos) matches Some((q, sv)) ==> sv.total == sv.passed + sv.failed
            + sv.ignored,
{
}

/// Every suite of a run of parsed suites satisfies the count identity.
pub proof fn lemma_suites_from_totals(s: Seq<char>, pos: int)
    ensures
        forall|i: int|
            0 <= i < spec_suites_from(s, pos).1.len() ==> (#[trigger] spec_suites_from(
                s,
                pos,
            ).1[i]).total == spec_suites_from(s, pos).1[i].passed + spec_suites_from(
                s,
                pos,
            ).1[i].failed + spec_suites_from(s, pos).1[i].ignored,
    decreases s.len() - pos,
{
    lemma_suite_parser_total(s, pos);
    match spec_suite_parser(s, pos) {
        Some((q, sv)) => {
            if pos < q <= s.len() {
                lemma_suites_from_totals(s, q);
                let rest = spec_suites_from(s, q);
                assert forall|i: int| 0 <= i < spec_suites_from(s, pos).1.len() implies (
                #[trigger] spec_suites_from(s, pos).1[i]).total == spec_suites_from(
                    s,
                    pos,
                ).1[i].passed + spec_suites_from(s, pos).1[i].failed + spec_suites_from(
                    s,
                    pos,
                ).1[i].ignored by {
                    assert(spec_suites_from(s, pos).1 == seq![sv] + rest.1);
                    if i == 0 {
                        assert((seq![sv] + rest.1)[0] == sv);
                    } else {
                        assert((seq![sv] + rest.1)[i] == rest.1[i - 1]);
                    }
                }
            }
        },
        None => {
        },
    }
}

/// Law: for every input accepted by the parser, each returned suite's
/// `total` equals `passed + failed + ignored`.  The length of a suite's
/// test list is independent of that sum: ignored tests are counted without
/// being printed as lines.
pub proof fn lemma_parsed_totals(s: Seq<char>, q: int, suites: Seq<SuiteView>)
    requires
        spec_cargo_test_result(s) == Some((q, suites)),
    ensures
        forall|i: int|
            0 <= i < suites.len() ==> (#[trigger] suites[i]).total == suites[i].passed
                + suites[i].failed + suites[i].ignored,
{
    let h = crate::header::spec_cargo_header(s, 0);
    match spec_suites_parser(s, h) {
        Some(_) => {
            lemma_suites_from_totals(s, h);
            assert(suites == spec_suites_from(s, h).1);
            assert forall|i: int| 0 <= i < suites.len() implies (#[trigger] suites[i]).total
                == suites[i].passed + suites[i].failed + suites[i].ignored by {
                assert(suites[i] == spec_suites_from(s, h).1[i]);
            }
        },
        None => {
            match spec_compile_error(s, h) {
                Some((qq, sv)) => {
                    assert(suites == seq![sv]);
                    assert(suites[0] == sv);
                },
                None => {
                },
            }
        },
    }
}

/// Law: looking a name up among the captured failures succeeds exactly
/// when a failure with that name is present, and the result is the message
/// of the first such failure.
pub proof fn lemma_find_msg_first_match(name: Seq<char>, fs: Seq<FailureView>)
    ensures
        (spec_find_msg(name, fs) is Some) <==> (exists|j: int|
            0 <= j < fs.len() && (#[trigger] fs[j]).name == name),
        spec_find_msg(name, fs) matches Some(m) ==> exists|j: int|
            {
                &&& 0 <= j < fs.len()
                &&& (#[trigger] fs[j]).name == name
                &&& m == fs[j].error
                &&& forall|k: int| 0 <= k < j ==> fs[k].name != name
            },
    decreases fs.len(),
{
    if fs.len() == 0 {
    } else if fs[0].name == name {
        assert(fs[0].name == name);
    } else {
        let rest = fs.drop_first();
        lemma_find_msg_first_match(name, rest);
        assert forall|j: int| 0 <= j < fs.len() && (#[trigger] fs[j]).name == name implies (
        spec_find_msg(name, fs) is Some) by {
            assert(j != 0);
            assert(rest[j - 1] == fs[j]);
        }
        if spec_find_msg(name, fs) is Some {
            let m = spec_find_msg(name, fs)->Some_0;
            let j = choose|j: int|
                {
                    &&& 0 <= j < rest.len()
                    &&& (#[trigger] rest[j]).name == name
                    &&& m == rest[j].error
                    &&& forall|k: int| 0 <= k < j ==> rest[k].name != name
                };
            assert(fs[j + 1] == rest[j]);
            assert forall|k: int| 0 <= k < j + 1 implies fs[k].name != name by {
                if k > 0 {
                    assert(rest[k - 1] == fs[k]);
                }
            }
        }
    }
}

/// Law: in an assembled suite, a test's error is present exactly when the
/// failure block holds a failure with the test's name; when no failure
/// block was present the tests stay untouched, so their errors stay
/// absent.
pub proof fn lemma_annotate_correlation(tests: Seq<TestView>, fo: Option<Seq<FailureView>>)
    ensures
        match fo {
            Some(fs) => {
                &&& spec_annotate(tests, fo).len() == tests.len()
                &&& forall|i: int|
                    0 <= i < tests.len() ==> ((#[trigger] spec_annotate(tests, fo)[i]).error
                        is Some <==> exists|j: int|
                        0 <= j < fs.len() && (#[trigger] fs[j]).name == tests[i].name)
                &&& forall|i: int|
                    0 <= i < tests.len() ==> (#[trigger] spec_annotate(tests, fo)[i]).name
                        == tests[i].name && spec_annotate(tests, fo)[i].status == tests[i].status
            },
            None => spec_annotate(tests, fo) == tests,
        },
{
    match fo {
        Some(fs) => {
            assert forall|i: int| 0 <= i < tests.len() implies ((#[trigger] spec_annotate(
                tests,
                fo,
            )[i]).error is Some <==> exists|j: int|
                0 <= j < fs.len() && (#[trigger] fs[j]).name == tests[i].name) by {
                lemma_find_msg_first_match(tests[i].name, fs);
            }
        },
        None => {
        },
    }
}

/// Law: in a parsed suite, a test's error is present exactly when the
/// suite's failure block holds a failure with that test's name — whatever
/// the test's status; with no failure block at all, every error is
/// absent.  Names and statuses are exactly those of the printed test
/// lines.
pub proof fn lemma_suite_error_correlation(s: Seq<char>, pos: int)
    ensures
        spec_suite_parser(s, pos) matches Some((q, sv)) ==> {
            let p1 = crate::suite::spec_suite_line(s, pos)->Some_0.0;
            let p2 = crate::suite::spec_suite_count(s, p1)->Some_0;
            let tr = spec_test_results(s, p2);
            let fo = crate::suite::failure::spec_fail_opt(s, tr.0);
            &&& sv.tests.len() == tr.1.len()
            &&& forall|i: int|
                0 <= i < sv.tests.len() ==> (#[trigger] sv.tests[i]).name == tr.1[i].name
                    && sv.tests[i].status == tr.1[i].status
            &&& forall|i: int|
                0 <= i < sv.tests.len() ==> ((#[trigger] sv.tests[i]).error is Some <==> (
                fo.1 matches Some(fs) && exists|j: int|
                    0 <= j < fs.len() && (#[trigger] fs[j]).name == sv.tests[i].name))
        },
{
    if spec_suite_parser(s, pos) is Some {
        let p1 = crate::suite::spec_suite_line(s, pos)->Some_0.0;
        let p2 = crate::suite::spec_suite_count(s, p1)->Some_0;
        let tr = spec_test_results(s, p2);
        let fo = crate::suite::failure::spec_fail_opt(s, tr.0);
        let sv = spec_suite_parser(s, pos)->Some_0.1;
        lemma_annotate_correlation(tr.1, fo.1);
        lemma_test_results_error_none(s, p2);
        assert(sv.tests == spec_annotate(tr.1, fo.1));
        match fo.1 {
            Some(fs) => {
                assert forall|i: int| 0 <= i < sv.tests.len() implies (#[trigger] sv.tests[i]).name
                    == tr.1[i].name && sv.tests[i].status == tr.1[i].status by {
                    assert(spec_annotate(tr.1, fo.1)[i].name == tr.1[i].name);
                }
            },
            None => {
            },
        }
    }
}

/// Every test coming out of the test-line stage carries no error yet: an
/// error can only be attached by the correlation rule.
pub proof fn lemma_test_results_error_none(s: Seq<char>, pos: int)
    ensures
        forall|i: int|
            0 <= i < spec_test_results(s, pos).1.len() ==> (#[trigger] spec_test_results(
                s,
                pos,
            ).1[i]).error is None,
    decreases s.len() - pos,
{
    match crate::suite::spec_test_result(s, pos) {
        Some((q, t)) => {
            if pos < q <= s.len() {
                lemma_test_results_error_none(s, q);
            }
        },
        None => {
        },
    }
}

} // verus!
