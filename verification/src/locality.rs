//! Locality of the grammar: every parser reads the input only from its
//! cursor on, so parsing at a position past a prefix does not depend on
//! that prefix.  These lemmas culminate in the transparency law: a block
//! of preamble lines prepended to a transcript leaves the parsed suites
//! unchanged.

use crate::header::{spec_cargo_header, spec_preamble_line, spec_preamble_step};
use crate::suite::failure::{
    spec_fail_line, spec_fail_opt, spec_failure, spec_failures, spec_failures_from, FailureView,
};
use crate::suite::result_line::spec_count_then;
use crate::suite::result_line::spec_suite_result;
use crate::suite::{
    spec_suite_count, spec_suite_line, spec_suite_parser, spec_suites_from, spec_suites_parser,
    spec_test_result, spec_test_results, SuiteView, TestView,
};
use crate::utility_parsers::{
    lemma_digit_run_bound, lemma_find_bounds, lemma_find_line_end_bounds, lemma_skip_ws_bounds,
    lemma_space_run_bound, spec_digit_run_end, spec_digits, spec_digits_value, spec_find,
    spec_find_line_end, spec_match_at, spec_rest_of_line, spec_skip_ws, spec_space_run_end,
    spec_space1, spec_status, spec_tag, spec_ws_tag,
};
use crate::{spec_cargo_test_result, spec_compile_error, spec_error_code, spec_message_end};
use vstd::prelude::*;

verus! {

/// Skipping whitespace after a prefix only looks past the prefix.
pub proof fn lemma_shift_skip_ws(w: Seq<char>, s: Seq<char>, pos: int)
    requires
        pos >= 0,
    ensures
        spec_skip_ws(w + s, w.len() + pos) == w.len() + spec_skip_ws(s, pos),
    decreases s.len() - pos,
{
    if pos < s.len() {
        assert((w + s)[w.len() + pos] == s[pos]);
        if crate::utility_parsers::is_wsp_char(s[pos]) {
            lemma_shift_skip_ws(w, s, pos + 1);
        }
    }
}

/// Matching a literal after a prefix only looks past the prefix.
pub proof fn lemma_shift_match_at(w: Seq<char>, s: Seq<char>, pos: int, tok: Seq<char>)
    requires
        pos >= 0,
    ensures
        spec_match_at(w + s, w.len() + pos, tok) == spec_match_at(s, pos, tok),
{
    if pos + tok.len() <= s.len() {
        assert((w + s).subrange(w.len() + pos, w.len() + pos + tok.len()) =~= s.subrange(
            pos,
            pos + tok.len(),
        ));
    }
}

/// Searching for a literal after a prefix only looks past the prefix.
pub proof fn lemma_shift_find(w: Seq<char>, s: Seq<char>, pos: int, tok: Seq<char>)
    requires
        pos >= 0,
    ensures
        spec_find(w + s, w.len() + pos, tok) == match spec_find(s, pos, tok) {
            Some(e) => Some(w.len() + e),
            None => None::<int>,
        },
    decreases s.len() - pos,
{
    lemma_shift_match_at(w, s, pos, tok);
    if !(tok.len() < 1 || pos + tok.len() > s.len()) && !spec_match_at(s, pos, tok) {
        lemma_shift_find(w, s, pos + 1, tok);
    }
}

/// Searching for a line end after a prefix only looks past the prefix.
pub proof fn lemma_shift_find_line_end(w: Seq<char>, s: Seq<char>, pos: int)
    requires
        pos >= 0,
    ensures
        spec_find_line_end(w + s, w.len() + pos) == match spec_find_line_end(s, pos) {
            Some(e) => Some(w.len() + e),
            None => None::<int>,
        },
    decreases s.len() - pos,
{
    if pos < s.len() {
        assert((w + s)[w.len() + pos] == s[pos]);
        if !(s[pos] == '\n' || s[pos] == '\r') {
            lemma_shift_find_line_end(w, s, pos + 1);
        }
    }
}

/// The rest-of-line token after a prefix only looks past the prefix.
pub proof fn lemma_shift_rest_of_line(w: Seq<char>, s: Seq<char>, pos: int)
    requires
        pos >= 0,
    ensures
        spec_rest_of_line(w + s, w.len() + pos) == match spec_rest_of_line(s, pos) {
            Some((q, c)) => Some((w.len() + q, c)),
            None => None::<(int, Seq<char>)>,
        },
{
    lemma_shift_find_line_end(w, s, pos);
    crate::utility_parsers::lemma_find_line_end_bounds(s, pos);
    match spec_find_line_end(s, pos) {
        Some(e) => {
            assert((w + s)[w.len() + e] == s[e]);
            if e + 1 < s.len() {
                assert((w + s)[w.len() + e + 1] == s[e + 1]);
            }
            if s[e] == '\n' || (e + 1 < s.len() && s[e + 1] == '\n') {
                assert((w + s).subrange(w.len() + pos, w.len() + e) =~= s.subrange(pos, e));
            }
        },
        None => {
        },
    }
}

/// A plain literal after a prefix only looks past the prefix.
pub proof fn lemma_shift_tag(w: Seq<char>, s: Seq<char>, pos: int, tok: Seq<char>)
    requires
        pos >= 0,
    ensures
        spec_tag(w + s, w.len() + pos, tok) == match spec_tag(s, pos, tok) {
            Some(q) => Some(w.len() + q),
            None => None::<int>,
        },
{
    lemma_shift_match_at(w, s, pos, tok);
}

/// A whitespace-framed literal after a prefix only looks past the prefix.
pub proof fn lemma_shift_ws_tag(w: Seq<char>, s: Seq<char>, pos: int, tok: Seq<char>)
    requires
        pos >= 0,
    ensures
        spec_ws_tag(w + s, w.len() + pos, tok) == match spec_ws_tag(s, pos, tok) {
            Some(q) => Some(w.len() + q),
            None => None::<int>,
        },
{
    lemma_shift_skip_ws(w, s, pos);
    crate::utility_parsers::lemma_skip_ws_bounds(s, pos);
    let a = spec_skip_ws(s, pos);
    lemma_shift_match_at(w, s, a, tok);
    if spec_match_at(s, a, tok) {
        lemma_shift_skip_ws(w, s, a + tok.len());
    }
}

/// The end of a digit run after a prefix only looks past the prefix.
pub proof fn lemma_shift_digit_run_end(w: Seq<char>, s: Seq<char>, pos: int)
    requires
        pos >= 0,
    ensures
        spec_digit_run_end(w + s, w.len() + pos) == w.len() + spec_digit_run_end(s, pos),
    decreases s.len() - pos,
{
    if pos < s.len() {
        assert((w + s)[w.len() + pos] == s[pos]);
        if crate::utility_parsers::is_digit_char(s[pos]) {
            lemma_shift_digit_run_end(w, s, pos + 1);
        }
    }
}

/// The value of a digit run after a prefix only looks past the prefix.
pub proof fn lemma_shift_digits_value(w: Seq<char>, s: Seq<char>, from: int, to: int)
    requires
        from >= 0,
        to <= s.len(),
    ensures
        spec_digits_value(w + s, w.len() + from, w.len() + to) == spec_digits_value(s, from, to),
    decreases to - from,
{
    if from < to {
        assert((w + s)[w.len() + to - 1] == s[to - 1]);
        lemma_shift_digits_value(w, s, from, to - 1);
    }
}

/// The count token after a prefix only looks past the prefix.
pub proof fn lemma_shift_digits(w: Seq<char>, s: Seq<char>, pos: int)
    requires
        pos >= 0,
    ensures
        spec_digits(w + s, w.len() + pos) == match spec_digits(s, pos) {
            Some((q, v)) => Some((w.len() + q, v)),
            None => None::<(int, int)>,
        },
{
    lemma_shift_skip_ws(w, s, pos);
    crate::utility_parsers::lemma_skip_ws_bounds(s, pos);
    let a = spec_skip_ws(s, pos);
    lemma_shift_digit_run_end(w, s, a);
    let e = spec_digit_run_end(s, a);
    crate::utility_parsers::lemma_digit_run_bound(s, a);
    if a <= s.len() && a < e {
        lemma_shift_digits_value(w, s, a, e);
        lemma_shift_skip_ws(w, s, e);
    }
}

/// The status token after a prefix only looks past the prefix.
pub proof fn lemma_shift_status(w: Seq<char>, s: Seq<char>, pos: int)
    requires
        pos >= 0,
    ensures
        spec_status(w + s, w.len() + pos) == match spec_status(s, pos) {
            Some((q, st)) => Some((w.len() + q, st)),
            None => None::<(int, Seq<char>)>,
        },
{
    lemma_shift_match_at(w, s, pos, "ok"@);
    lemma_shift_match_at(w, s, pos, "FAILED"@);
}

/// The end of a space run after a prefix only looks past the prefix.
pub proof fn lemma_shift_space_run_end(w: Seq<char>, s: Seq<char>, pos: int)
    requires
        pos >= 0,
    ensures
        spec_space_run_end(w + s, w.len() + pos) == w.len() + spec_space_run_end(s, pos),
    decreases s.len() - pos,
{
    if pos < s.len() {
        assert((w + s)[w.len() + pos] == s[pos]);
        if crate::utility_parsers::is_space_char(s[pos]) {
            lemma_shift_space_run_end(w, s, pos + 1);
        }
    }
}

/// The one-or-more-spaces token after a prefix only looks past the prefix.
pub proof fn lemma_shift_space1(w: Seq<char>, s: Seq<char>, pos: int)
    requires
        pos >= 0,
    ensures
        spec_space1(w + s, w.len() + pos) == match spec_space1(s, pos) {
            Some(q) => Some(w.len() + q),
            None => None::<int>,
        },
{
    lemma_shift_space_run_end(w, s, pos);
}

/// A matched whitespace-framed literal never moves the cursor backwards.
proof fn lemma_ws_tag_lb(s: Seq<char>, pos: int, tok: Seq<char>)
    requires
        pos >= 0,
    ensures
        spec_ws_tag(s, pos, tok) matches Some(q) ==> pos <= q,
{
    lemma_skip_ws_bounds(s, pos);
    let a = spec_skip_ws(s, pos);
    if spec_match_at(s, a, tok) {
        lemma_skip_ws_bounds(s, a + tok.len());
    }
}

/// A matched rest-of-line token never moves the cursor backwards.
proof fn lemma_rest_of_line_lb(s: Seq<char>, pos: int)
    ensures
        spec_rest_of_line(s, pos) matches Some((q, c)) ==> pos <= q,
{
    lemma_find_line_end_bounds(s, pos);
}

/// A matched count token leaves the cursor at a valid position.
proof fn lemma_digits_lb(s: Seq<char>, pos: int)
    requires
        pos >= 0,
    ensures
        spec_digits(s, pos) matches Some((q, v)) ==> 0 <= q,
{
    lemma_skip_ws_bounds(s, pos);
    let a = spec_skip_ws(s, pos);
    lemma_digit_run_bound(s, a);
    let e = spec_digit_run_end(s, a);
    lemma_skip_ws_bounds(s, e);
}

/// A preamble line after a prefix only looks past the prefix.
pub proof fn lemma_shift_preamble_line(w: Seq<char>, s: Seq<char>, pos: int, prefix: Seq<char>)
    requires
        pos >= 0,
    ensures
        spec_preamble_line(w + s, w.len() + pos, prefix) == match spec_preamble_line(
            s,
            pos,
            prefix,
        ) {
            Some(q) => Some(w.len() + q),
            None => None::<int>,
        },
        spec_preamble_line(s, pos, prefix) matches Some(q) ==> pos <= q,
{
    lemma_shift_ws_tag(w, s, pos, prefix);
    lemma_ws_tag_lb(s, pos, prefix);
    match spec_ws_tag(s, pos, prefix) {
        Some(p) => {
            lemma_shift_rest_of_line(w, s, p);
            lemma_rest_of_line_lb(s, p);
        },
        None => {
        },
    }
}

/// A preamble line of any shape after a prefix only looks past the prefix.
pub proof fn lemma_shift_preamble_step(w: Seq<char>, s: Seq<char>, pos: int)
    requires
        pos >= 0,
    ensures
        spec_preamble_step(w + s, w.len() + pos) == match spec_preamble_step(s, pos) {
            Some(q) => Some(w.len() + q),
            None => None::<int>,
        },
        spec_preamble_step(s, pos) matches Some(q) ==> pos <= q,
{
    lemma_shift_preamble_line(w, s, pos, "Updating"@);
    lemma_shift_preamble_line(w, s, pos, "Downloading"@);
    lemma_shift_preamble_line(w, s, pos, "Downloaded"@);
    lemma_shift_preamble_line(w, s, pos, "Installing"@);
    lemma_shift_preamble_line(w, s, pos, "Compiling"@);
    lemma_shift_preamble_line(w, s, pos, "Finished"@);
    lemma_shift_preamble_line(w, s, pos, "Blocking"@);
}

/// The whole preamble after a prefix only looks past the prefix.
pub proof fn lemma_shift_cargo_header(w: Seq<char>, s: Seq<char>, pos: int)
    requires
        pos >= 0,
    ensures
        spec_cargo_header(w + s, w.len() + pos) == w.len() + spec_cargo_header(s, pos),
        pos <= spec_cargo_header(s, pos),
    decreases s.len() - pos,
{
    lemma_shift_preamble_step(w, s, pos);
    match spec_preamble_step(s, pos) {
        Some(q) => {
            if pos < q <= s.len() {
                lemma_shift_cargo_header(w, s, q);
            }
        },
        None => {
        },
    }
}

/// A count with its label after a prefix only looks past the prefix.
pub proof fn lemma_shift_count_then(w: Seq<char>, s: Seq<char>, pos: int, label: Seq<char>)
    requires
        pos >= 0,
    ensures
        spec_count_then(w + s, w.len() + pos, label) == match spec_count_then(s, pos, label) {
            Some((q, v)) => Some((w.len() + q, v)),
            None => None::<(int, int)>,
        },
        spec_count_then(s, pos, label) matches Some((q, v)) ==> 0 <= q,
{
    lemma_shift_digits(w, s, pos);
    lemma_digits_lb(s, pos);
    match spec_digits(s, pos) {
        Some((q, v)) => {
            lemma_shift_tag(w, s, q, label);
        },
        None => {
        },
    }
}

/// The summary line after a prefix only looks past the prefix.
pub proof fn lemma_shift_suite_result(w: Seq<char>, s: Seq<char>, pos: int)
    requires
        pos >= 0,
    ensures
        spec_suite_result(w + s, w.len() + pos) == match spec_suite_result(s, pos) {
            Some((q, res)) => Some((w.len() + q, res)),
            None => None::<(int, crate::suite::result_line::SuiteResultView)>,
        },
{
    lemma_shift_ws_tag(w, s, pos, "test result: "@);
    lemma_ws_tag_lb(s, pos, "test result: "@);
    if let Some(p1) = spec_ws_tag(s, pos, "test result: "@) {
        lemma_shift_status(w, s, p1);
        if let Some((p2, st)) = spec_status(s, p1) {
            lemma_shift_tag(w, s, p2, "."@);
            if let Some(p3) = spec_tag(s, p2, "."@) {
                lemma_shift_count_then(w, s, p3, "passed;"@);
                if let Some((p4, passed)) = spec_count_then(s, p3, "passed;"@) {
                    lemma_shift_count_then(w, s, p4, "failed;"@);
                    if let Some((p5, failed)) = spec_count_then(s, p4, "failed;"@) {
                        lemma_shift_count_then(w, s, p5, "ignored;"@);
                        if let Some((p6, ignored)) = spec_count_then(s, p5, "ignored;"@) {
                            lemma_shift_count_then(w, s, p6, "measured;"@);
                            if let Some((p7, measured)) = spec_count_then(s, p6, "measured;"@) {
                                lemma_shift_digits(w, s, p7);
                                lemma_digits_lb(s, p7);
                                if let Some((p8, _filtered)) = spec_digits(s, p7) {
                                    lemma_shift_ws_tag(w, s, p8, "filtered out"@);
                                }
                            }
                        }
                    }
                }
            }
        }
    }
}

/// The failure header line after a prefix only looks past the prefix.
pub proof fn lemma_shift_fail_line(w: Seq<char>, s: Seq<char>, pos: int)
    requires
        pos >= 0,
    ensures
        spec_fail_line(w + s, w.len() + pos) == match spec_fail_line(s, pos) {
            Some((q, name)) => Some((w.len() + q, name)),
            None => None::<(int, Seq<char>)>,
        },
        spec_fail_line(s, pos) matches Some((q, name)) ==> 0 <= q,
{
    lemma_shift_ws_tag(w, s, pos, "----"@);
    lemma_ws_tag_lb(s, pos, "----"@);
    if let Some(q0) = spec_ws_tag(s, pos, "----"@) {
        lemma_shift_find(w, s, q0, " "@);
        lemma_find_bounds(s, q0, " "@);
        if let Some(e) = spec_find(s, q0, " "@) {
            assert((w + s).subrange(w.len() + q0, w.len() + e) =~= s.subrange(q0, e));
            lemma_shift_ws_tag(w, s, e, "stdout"@);
            lemma_ws_tag_lb(s, e, "stdout"@);
            if let Some(q2) = spec_ws_tag(s, e, "stdout"@) {
                lemma_shift_ws_tag(w, s, q2, "----"@);
                lemma_ws_tag_lb(s, q2, "----"@);
            }
        }
    }
}

/// One failure section after a prefix only looks past the prefix.
pub proof fn lemma_shift_failure(w: Seq<char>, s: Seq<char>, pos: int)
    requires
        pos >= 0,
    ensures
        spec_failure(w + s, w.len() + pos) == match spec_failure(s, pos) {
            Some((q, f)) => Some((w.len() + q, f)),
            None => None::<(int, FailureView)>,
        },
        spec_failure(s, pos) matches Some((q, f)) ==> 0 <= q,
{
    lemma_shift_fail_line(w, s, pos);
    if let Some((p1, name)) = spec_fail_line(s, pos) {
        lemma_shift_find(w, s, p1, "\n\n"@);
        lemma_find_bounds(s, p1, "\n\n"@);
        if let Some(e) = spec_find(s, p1, "\n\n"@) {
            assert((w + s).subrange(w.len() + p1, w.len() + e) =~= s.subrange(p1, e));
        }
    }
}

/// A run of failure sections after a prefix only looks past the prefix.
pub proof fn lemma_shift_failures_from(w: Seq<char>, s: Seq<char>, pos: int)
    requires
        pos >= 0,
    ensures
        spec_failures_from(w + s, w.len() + pos) == (
            w.len() + spec_failures_from(s, pos).0,
            spec_failures_from(s, pos).1,
        ),
        pos <= spec_failures_from(s, pos).0,
    decreases s.len() - pos,
{
    lemma_shift_failure(w, s, pos);
    match spec_failure(s, pos) {
        Some((q, f)) => {
            if pos < q <= s.len() {
                lemma_shift_failures_from(w, s, q);
            }
        },
        None => {
        },
    }
}

/// One or more failure sections after a prefix only look past the prefix.
pub proof fn lemma_shift_failures(w: Seq<char>, s: Seq<char>, pos: int)
    requires
        pos >= 0,
    ensures
        spec_failures(w + s, w.len() + pos) == match spec_failures(s, pos) {
            Some((q, fs)) => Some((w.len() + q, fs)),
            None => None::<(int, Seq<FailureView>)>,
        },
{
    lemma_shift_failure(w, s, pos);
    lemma_shift_failures_from(w, s, pos);
}

/// The optional failure block after a prefix only looks past the prefix.
pub proof fn lemma_shift_fail_opt(w: Seq<char>, s: Seq<char>, pos: int)
    requires
        pos >= 0,
    ensures
        spec_fail_opt(w + s, w.len() + pos) == (
            w.len() + spec_fail_opt(s, pos).0,
            spec_fail_opt(s, pos).1,
        ),
        0 <= spec_fail_opt(s, pos).0,
{
    lemma_shift_ws_tag(w, s, pos, "failures:"@);
    lemma_ws_tag_lb(s, pos, "failures:"@);
    if let Some(p1) = spec_ws_tag(s, pos, "failures:"@) {
        lemma_shift_failures(w, s, p1);
        lemma_shift_failures_from(w, s, p1);
        if let Some((p2, fs)) = spec_failures(s, p1) {
            lemma_shift_find(w, s, p2, "test result: "@);
            lemma_find_bounds(s, p2, "test result: "@);
        }
    }
}

/// One test line after a prefix only looks past the prefix.
pub proof fn lemma_shift_test_result(w: Seq<char>, s: Seq<char>, pos: int)
    requires
        pos >= 0,
    ensures
        spec_test_result(w + s, w.len() + pos) == match spec_test_result(s, pos) {
            Some((q, t)) => Some((w.len() + q, t)),
            None => None::<(int, TestView)>,
        },
        spec_test_result(s, pos) matches Some((q, t)) ==> 0 <= q,
{
    lemma_shift_tag(w, s, pos, "test"@);
    if let Some(p1) = spec_tag(s, pos, "test"@) {
        lemma_shift_space1(w, s, p1);
        lemma_space_run_bound(s, p1);
        if let Some(p2) = spec_space1(s, p1) {
            lemma_shift_find(w, s, p2, " ..."@);
            lemma_find_bounds(s, p2, " ..."@);
            if let Some(e) = spec_find(s, p2, " ..."@) {
                assert((w + s).subrange(w.len() + p2, w.len() + e) =~= s.subrange(p2, e));
                lemma_shift_skip_ws(w, s, e + " ..."@.len());
                lemma_skip_ws_bounds(s, e + " ..."@.len());
                let p3 = spec_skip_ws(s, e + " ..."@.len());
                lemma_shift_status(w, s, p3);
                if let Some((p4, st)) = spec_status(s, p3) {
                    lemma_shift_skip_ws(w, s, p4);
                    lemma_skip_ws_bounds(s, p4);
                }
            }
        }
    }
}

/// A run of test lines after a prefix only looks past the prefix.
pub proof fn lemma_shift_test_results(w: Seq<char>, s: Seq<char>, pos: int)
    requires
        pos >= 0,
    ensures
        spec_test_results(w + s, w.len() + pos) == (
            w.len() + spec_test_results(s, pos).0,
            spec_test_results(s, pos).1,
        ),
        pos <= spec_test_results(s, pos).0,
    decreases s.len() - pos,
{
    lemma_shift_test_result(w, s, pos);
    match spec_test_result(s, pos) {
        Some((q, t)) => {
            if pos < q <= s.len() {
                lemma_shift_test_results(w, s, q);
            }
        },
        None => {
        },
    }
}

/// A suite header line after a prefix only looks past the prefix.
pub proof fn lemma_shift_suite_line(w: Seq<char>, s: Seq<char>, pos: int)
    requires
        pos >= 0,
    ensures
        spec_suite_line(w + s, w.len() + pos) == match spec_suite_line(s, pos) {
            Some((q, name)) => Some((w.len() + q, name)),
            None => None::<(int, Seq<char>)>,
        },
        spec_suite_line(s, pos) matches Some((q, name)) ==> 0 <= q,
{
    lemma_shift_ws_tag(w, s, pos, "Running"@);
    lemma_ws_tag_lb(s, pos, "Running"@);
    lemma_shift_ws_tag(w, s, pos, "Doc-tests"@);
    lemma_ws_tag_lb(s, pos, "Doc-tests"@);
    match spec_ws_tag(s, pos, "Running"@) {
        Some(p) => {
            lemma_shift_rest_of_line(w, s, p);
            lemma_rest_of_line_lb(s, p);
        },
        None => {
            match spec_ws_tag(s, pos, "Doc-tests"@) {
                Some(p) => {
                    lemma_shift_rest_of_line(w, s, p);
                    lemma_rest_of_line_lb(s, p);
                },
                None => {
                },
            }
        },
    }
}

/// A suite count line after a prefix only looks past the prefix.
pub proof fn lemma_shift_suite_count(w: Seq<char>, s: Seq<char>, pos: int)
    requires
        pos >= 0,
    ensures
        spec_suite_count(w + s, w.len() + pos) == match spec_suite_count(s, pos) {
            Some(q) => Some(w.len() + q),
            None => None::<int>,
        },
        spec_suite_count(s, pos) matches Some(q) ==> 0 <= q,
{
    lemma_shift_ws_tag(w, s, pos, "running"@);
    lemma_ws_tag_lb(s, pos, "running"@);
    if let Some(p) = spec_ws_tag(s, pos, "running"@) {
        lemma_shift_rest_of_line(w, s, p);
        lemma_rest_of_line_lb(s, p);
    }
}

/// One whole suite after a prefix only looks past the prefix.
pub proof fn lemma_shift_suite_parser(w: Seq<char>, s: Seq<char>, pos: int)
    requires
        pos >= 0,
    ensures
        spec_suite_parser(w + s, w.len() + pos) == match spec_suite_parser(s, pos) {
            Some((q, sv)) => Some((w.len() + q, sv)),
            None => None::<(int, SuiteView)>,
        },
{
    lemma_shift_suite_line(w, s, pos);
    if let Some((p1, name)) = spec_suite_line(s, pos) {
        lemma_shift_suite_count(w, s, p1);
        if let Some(p2) = spec_suite_count(s, p1) {
            lemma_shift_test_results(w, s, p2);
            let tr = spec_test_results(s, p2);
            lemma_shift_fail_opt(w, s, tr.0);
            let fo = spec_fail_opt(s, tr.0);
            lemma_shift_suite_result(w, s, fo.0);
        }
    }
}

/// A run of suites after a prefix only looks past the prefix.
pub proof fn lemma_shift_suites_from(w: Seq<char>, s: Seq<char>, pos: int)
    requires
        pos >= 0,
    ensures
        spec_suites_from(w + s, w.len() + pos) == (
            w.len() + spec_suites_from(s, pos).0,
            spec_suites_from(s, pos).1,
        ),
    decreases s.len() - pos,
{
    lemma_shift_suite_parser(w, s, pos);
    match spec_suite_parser(s, pos) {
        Some((q, sv)) => {
            if pos < q <= s.len() {
                lemma_shift_suites_from(w, s, q);
            }
        },
        None => {
        },
    }
}

/// One or more suites after a prefix only look past the prefix.
pub proof fn lemma_shift_suites_parser(w: Seq<char>, s: Seq<char>, pos: int)
    requires
        pos >= 0,
    ensures
        spec_suites_parser(w + s, w.len() + pos) == match spec_suites_parser(s, pos) {
            Some((q, ss)) => Some((w.len() + q, ss)),
            None => None::<(int, Seq<SuiteView>)>,
        },
{
    lemma_shift_suite_parser(w, s, pos);
    lemma_shift_suites_from(w, s, pos);
}

/// The compile-error message end after a prefix only looks past the
/// prefix.
pub proof fn lemma_shift_message_end(w: Seq<char>, s: Seq<char>, pos: int)
    requires
        pos >= 0,
    ensures
        spec_message_end(w + s, w.len() + pos) == w.len() + spec_message_end(s, pos),
        pos <= spec_message_end(s, pos),
    decreases s.len() - pos,
{
    if pos < s.len() {
        assert((w + s)[w.len() + pos] == s[pos]);
        if s[pos] != '\0' {
            lemma_shift_message_end(w, s, pos + 1);
        }
    }
}

/// The bracketed error code after a prefix only looks past the prefix.
pub proof fn lemma_shift_error_code(w: Seq<char>, s: Seq<char>, pos: int)
    requires
        pos >= 0,
    ensures
        spec_error_code(w + s, w.len() + pos) == w.len() + spec_error_code(s, pos),
        0 <= spec_error_code(s, pos),
{
    lemma_shift_match_at(w, s, pos, "["@);
    if spec_match_at(s, pos, "["@) {
        lemma_shift_find(w, s, pos + "["@.len(), "]"@);
        lemma_find_bounds(s, pos + "["@.len(), "]"@);
    }
}

/// The compile-error shape after a prefix only looks past the prefix.
pub proof fn lemma_shift_compile_error(w: Seq<char>, s: Seq<char>, pos: int)
    requires
        pos >= 0,
    ensures
        spec_compile_error(w + s, w.len() + pos) == match spec_compile_error(s, pos) {
            Some((q, sv)) => Some((w.len() + q, sv)),
            None => None::<(int, SuiteView)>,
        },
{
    lemma_shift_ws_tag(w, s, pos, "error"@);
    lemma_ws_tag_lb(s, pos, "error"@);
    if let Some(p1) = spec_ws_tag(s, pos, "error"@) {
        lemma_shift_error_code(w, s, p1);
        let p2 = spec_error_code(s, p1);
        lemma_shift_skip_ws(w, s, p2);
        lemma_skip_ws_bounds(s, p2);
        let a = spec_skip_ws(s, p2);
        lemma_shift_match_at(w, s, a, ":"@);
        if spec_match_at(s, a, ":"@) {
            lemma_shift_skip_ws(w, s, a + ":"@.len());
            lemma_skip_ws_bounds(s, a + ":"@.len());
            let p3 = spec_skip_ws(s, a + ":"@.len());
            lemma_shift_message_end(w, s, p3);
            let e = spec_message_end(s, p3);
            lemma_message_end_ub(s, p3);
            assert((w + s).subrange(w.len() + p3, w.len() + e) =~= s.subrange(p3, e));
        }
    }
}

/// The message end never runs past the input.
proof fn lemma_message_end_ub(s: Seq<char>, pos: int)
    ensures
        pos <= s.len() ==> spec_message_end(s, pos) <= s.len(),
        pos <= spec_message_end(s, pos),
    decreases s.len() - pos,
{
    if 0 <= pos && pos < s.len() && s[pos] != '\0' {
        lemma_message_end_ub(s, pos + 1);
    }
}

/// When a whitespace run ends inside the prefix, appending more input
/// does not change where it ends.
proof fn lemma_skip_ws_agree(w: Seq<char>, s: Seq<char>, p: int)
    requires
        0 <= p,
        spec_skip_ws(w, p) < w.len(),
    ensures
        spec_skip_ws(w + s, p) == spec_skip_ws(w, p),
    decreases w.len() - p,
{
    if p < w.len() {
        assert((w + s)[p] == w[p]);
        if crate::utility_parsers::is_wsp_char(w[p]) {
            lemma_skip_ws_agree(w, s, p + 1);
        }
    }
}

/// A literal that lies wholly inside the prefix matches there no matter
/// what follows.
proof fn lemma_match_at_agree(w: Seq<char>, s: Seq<char>, a: int, tok: Seq<char>)
    requires
        0 <= a,
        a + tok.len() <= w.len(),
    ensures
        spec_match_at(w + s, a, tok) == spec_match_at(w, a, tok),
{
    assert((w + s).subrange(a, a + tok.len()) =~= w.subrange(a, a + tok.len()));
}

/// A line end found inside the prefix is still the first one when more
/// input follows.
proof fn lemma_find_line_end_agree(w: Seq<char>, s: Seq<char>, b: int)
    requires
        0 <= b,
        spec_find_line_end(w, b) is Some,
    ensures
        spec_find_line_end(w + s, b) == spec_find_line_end(w, b),
    decreases w.len() - b,
{
    lemma_find_line_end_bounds(w, b);
    if b < w.len() {
        assert((w + s)[b] == w[b]);
        if !(w[b] == '\n' || w[b] == '\r') {
            lemma_find_line_end_agree(w, s, b + 1);
        }
    }
}

/// A complete line inside the prefix parses the same when more input
/// follows.
proof fn lemma_rest_of_line_agree(w: Seq<char>, s: Seq<char>, b: int)
    requires
        0 <= b,
        spec_rest_of_line(w, b) is Some,
    ensures
        spec_rest_of_line(w + s, b) == spec_rest_of_line(w, b),
{
    lemma_find_line_end_bounds(w, b);
    lemma_find_line_end_agree(w, s, b);
    let e = spec_find_line_end(w, b)->Some_0;
    assert((w + s)[e] == w[e]);
    if e + 1 < w.len() {
        assert((w + s)[e + 1] == w[e + 1]);
    }
    assert((w + s).subrange(b, e) =~= w.subrange(b, e));
}

/// A whitespace-framed literal that ends inside the prefix matches the
/// same when more input follows.
proof fn lemma_ws_tag_agree_some(w: Seq<char>, s: Seq<char>, p: int, tok: Seq<char>)
    requires
        0 <= p,
        tok.len() >= 1,
        spec_ws_tag(w, p, tok) matches Some(b) && b < w.len(),
    ensures
        spec_ws_tag(w + s, p, tok) == spec_ws_tag(w, p, tok),
{
    let a = spec_skip_ws(w, p);
    lemma_skip_ws_agree(w, s, p);
    lemma_match_at_agree(w, s, a, tok);
    lemma_skip_ws_agree(w, s, a + tok.len());
}

/// A whole preamble line inside the prefix parses the same when more
/// input follows.
proof fn lemma_line_prepend_some(w: Seq<char>, s: Seq<char>, p: int, prefix: Seq<char>, k: int)
    requires
        0 <= p,
        prefix.len() >= 1,
        spec_preamble_line(w, p, prefix) == Some(k),
    ensures
        spec_preamble_line(w + s, p, prefix) == Some(k),
{
    let b = spec_ws_tag(w, p, prefix)->Some_0;
    lemma_find_line_end_bounds(w, b);
    lemma_ws_tag_agree_some(w, s, p, prefix);
    lemma_rest_of_line_agree(w, s, b);
}

/// A preamble line whose prefix literal disagrees (at index `d`) with one
/// that does match inside the prefix cannot match, however the input
/// continues.
proof fn lemma_line_prepend_none(
    w: Seq<char>,
    s: Seq<char>,
    p: int,
    qpfx: Seq<char>,
    ppfx: Seq<char>,
    d: int,
)
    requires
        0 <= p,
        ppfx.len() >= 1,
        qpfx.len() >= 1,
        0 <= d < qpfx.len(),
        d < ppfx.len(),
        ppfx[d] != qpfx[d],
        spec_preamble_line(w, p, ppfx) is Some,
    ensures
        spec_preamble_line(w + s, p, qpfx) is None,
{
    let a = spec_skip_ws(w, p);
    lemma_skip_ws_agree(w, s, p);
    lemma_match_at_agree(w, s, a, ppfx);
    if spec_match_at(w + s, a, qpfx) {
        assert((w + s).subrange(a, a + qpfx.len())[d] == qpfx[d]);
        assert((w + s).subrange(a, a + ppfx.len())[d] == ppfx[d]);
        assert(false);
    }
}

/// A preamble line of any shape inside the prefix parses the same when
/// more input follows.
proof fn lemma_step_prepend(w: Seq<char>, s: Seq<char>, p: int, k: int)
    requires
        0 <= p,
        spec_preamble_step(w, p) == Some(k),
    ensures
        spec_preamble_step(w + s, p) == Some(k),
{
    reveal_strlit("Updating");
    reveal_strlit("Downloading");
    reveal_strlit("Downloaded");
    reveal_strlit("Installing");
    reveal_strlit("Compiling");
    reveal_strlit("Finished");
    reveal_strlit("Blocking");
    if spec_preamble_line(w, p, "Updating"@) is Some {
        lemma_line_prepend_some(w, s, p, "Updating"@, k);
    } else if spec_preamble_line(w, p, "Downloading"@) is Some {
        lemma_line_prepend_none(w, s, p, "Updating"@, "Downloading"@, 0);
        lemma_line_prepend_some(w, s, p, "Downloading"@, k);
    } else if spec_preamble_line(w, p, "Downloaded"@) is Some {
        lemma_line_prepend_none(w, s, p, "Updating"@, "Downloaded"@, 0);
        lemma_line_prepend_none(w, s, p, "Downloading"@, "Downloaded"@, 8);
        lemma_line_prepend_some(w, s, p, "Downloaded"@, k);
    } else if spec_preamble_line(w, p, "Installing"@) is Some {
        lemma_line_prepend_none(w, s, p, "Updating"@, "Installing"@, 0);
        lemma_line_prepend_none(w, s, p, "Downloading"@, "Installing"@, 0);
        lemma_line_prepend_none(w, s, p, "Downloaded"@, "Installing"@, 0);
        lemma_line_prepend_some(w, s, p, "Installing"@, k);
    } else if spec_preamble_line(w, p, "Compiling"@) is Some {
        lemma_line_prepend_none(w, s, p, "Updating"@, "Compiling"@, 0);
        lemma_line_prepend_none(w, s, p, "Downloading"@, "Compiling"@, 0);
        lemma_line_prepend_none(w, s, p, "Downloaded"@, "Compiling"@, 0);
        lemma_line_prepend_none(w, s, p, "Installing"@, "Compiling"@, 0);
        lemma_line_prepend_some(w, s, p, "Compiling"@, k);
    } else if spec_preamble_line(w, p, "Finished"@) is Some {
        lemma_line_prepend_none(w, s, p, "Updating"@, "Finished"@, 0);
        lemma_line_prepend_none(w, s, p, "Downloading"@, "Finished"@, 0);
        lemma_line_prepend_none(w, s, p, "Downloaded"@, "Finished"@, 0);
        lemma_line_prepend_none(w, s, p, "Installing"@, "Finished"@, 0);
        lemma_line_prepend_none(w, s, p, "Compiling"@, "Finished"@, 0);
        lemma_line_prepend_some(w, s, p, "Finished"@, k);
    } else {
        lemma_line_prepend_none(w, s, p, "Updating"@, "Blocking"@, 0);
        lemma_line_prepend_none(w, s, p, "Downloading"@, "Blocking"@, 0);
        lemma_line_prepend_none(w, s, p, "Downloaded"@, "Blocking"@, 0);
        lemma_line_prepend_none(w, s, p, "Installing"@, "Blocking"@, 0);
        lemma_line_prepend_none(w, s, p, "Compiling"@, "Blocking"@, 0);
        lemma_line_prepend_none(w, s, p, "Finished"@, "Blocking"@, 0);
        lemma_line_prepend_some(w, s, p, "Blocking"@, k);
    }
}

/// When the preamble skipper consumes a block in full, it also passes
/// through the end of that block when more input follows.
proof fn lemma_header_crossing(w: Seq<char>, s: Seq<char>, p: int)
    requires
        0 <= p,
        spec_cargo_header(w, p) == w.len(),
    ensures
        spec_cargo_header(w + s, p) == spec_cargo_header(w + s, w.len() as int),
    decreases w.len() - p,
{
    lemma_header_lb(w, p);
    match spec_preamble_step(w, p) {
        Some(k) => {
            if p < k <= w.len() {
                lemma_step_prepend(w, s, p, k);
                lemma_header_crossing(w, s, k);
            }
        },
        None => {
        },
    }
}

/// The preamble skipper never moves backwards.
proof fn lemma_header_lb(s: Seq<char>, pos: int)
    ensures
        pos <= spec_cargo_header(s, pos),
    decreases s.len() - pos,
{
    match spec_preamble_step(s, pos) {
        Some(q) => {
            if pos < q <= s.len() {
                lemma_header_lb(s, q);
            }
        },
        None => {
        },
    }
}

/// Law: preamble lines are fully transparent.  A block of build-progress
/// lines — any text that the preamble skipper consumes in full — prepended
/// to a transcript leaves the parse outcome unchanged: the same suites in
/// the same order (or the same failure), with only the consumed position
/// moved past the block.
pub proof fn lemma_preamble_transparency(w: Seq<char>, s: Seq<char>)
    requires
        spec_cargo_header(w, 0) == w.len(),
    ensures
        spec_cargo_test_result(w + s) == match spec_cargo_test_result(s) {
            Some((q, suites)) => Some((w.len() + q, suites)),
            None => None::<(int, Seq<SuiteView>)>,
        },
{
    lemma_header_crossing(w, s, 0);
    lemma_shift_cargo_header(w, s, 0);
    let h = spec_cargo_header(s, 0);
    lemma_shift_suites_parser(w, s, h);
    if spec_suites_parser(s, h) is None {
        lemma_shift_compile_error(w, s, h);
    }
}

} // verus!
