//! The failure block of a suite: the detailed per-test sections that
//! capture a failing test's output, and the later bare-name list, which
//! carries no further information and is skipped.

use crate::utility_parsers::{find_from, match_at, spec_find, spec_ws_tag, ws_tag, Scanner};
use vstd::prelude::*;

verus! {

/// One captured failure: the name of the failing test and the captured
/// message text, with the optional backtrace hint line stripped.
#[derive(Debug)]
pub struct Failure {
    pub name: String,
    pub error: String,
}

/// Mathematical model of a [`Failure`].
pub ghost struct FailureView {
    pub name: Seq<char>,
    pub error: Seq<char>,
}

impl View for Failure {
    type V = FailureView;

    open spec fn view(&self) -> FailureView {
        FailureView { name: self.name@, error: self.error@ }
    }
}

impl PartialEq for Failure {
    fn eq(&self, other: &Self) -> (r: bool) {
        self.name == other.name && self.error == other.error
    }
}

impl vstd::std_specs::cmp::PartialEqSpecImpl for Failure {
    open spec fn obeys_eq_spec() -> bool {
        true
    }

    open spec fn eq_spec(&self, other: &Self) -> bool {
        self@ == other@
    }
}

/// The models of a sequence of failures.
pub open spec fn failures_view(fs: Seq<Failure>) -> Seq<FailureView> {
    Seq::new(fs.len(), |i: int| fs[i]@)
}

/// The header line of one failure section:
/// `---- <name> stdout ----`, the name being the text before the first
/// space after the opening dashes.
pub open spec fn spec_fail_line(s: Seq<char>, pos: int) -> Option<(int, Seq<char>)> {
    match spec_ws_tag(s, pos, "----"@) {
        Some(q) => match spec_find(s, q, " "@) {
            Some(e) => match spec_ws_tag(s, e, "stdout"@) {
                Some(q2) => match spec_ws_tag(s, q2, "----"@) {
                    Some(q3) => Some((q3, s.subrange(q, e))),
                    None => None,
                },
                None => None,
            },
            None => None,
        },
        None => None,
    }
}

/// Strip the backtrace hint from the end of a captured message, when it
/// stands there as a line of its own.
pub open spec fn spec_strip_note(m: Seq<char>) -> Seq<char> {
    let tail = "\nnote: Run with `RUST_BACKTRACE=1` for a backtrace."@;
    if m.len() >= tail.len() && m.subrange(m.len() - tail.len(), m.len() as int) == tail {
        m.subrange(0, m.len() - tail.len())
    } else {
        m
    }
}

/// One failure section: its header line, then the captured message up to
/// the first blank line; the blank line is consumed.
pub open spec fn spec_failure(s: Seq<char>, pos: int) -> Option<(int, FailureView)> {
    match spec_fail_line(s, pos) {
        Some((p1, name)) => match spec_find(s, p1, "\n\n"@) {
            Some(e) => Some(
                (e + 2, FailureView { name: name, error: spec_strip_note(s.subrange(p1, e)) }),
            ),
            None => None,
        },
        None => None,
    }
}

/// As many failure sections as follow each other, each consuming input.
pub open spec fn spec_failures_from(s: Seq<char>, pos: int) -> (int, Seq<FailureView>)
    decreases s.len() - pos,
{
    match spec_failure(s, pos) {
        Some((q, f)) => {
            if pos < q <= s.len() {
                let rest = spec_failures_from(s, q);
                (rest.0, seq![f] + rest.1)
            } else {
                (pos, Seq::<FailureView>::empty())
            }
        },
        None => (pos, Seq::<FailureView>::empty()),
    }
}

/// One or more failure sections.
pub open spec fn spec_failures(s: Seq<char>, pos: int) -> Option<(int, Seq<FailureView>)> {
    match spec_failure(s, pos) {
        Some(_) => Some(spec_failures_from(s, pos)),
        None => None,
    }
}

/// The whole failure block is optional: it is attempted only after a
/// literal `failures:` line; when it matches, everything up to (but not
/// including) the summary line's `test result: ` is discarded, covering
/// the later bare-name list.  When any stage fails, nothing is consumed.
pub open spec fn spec_fail_opt(s: Seq<char>, pos: int) -> (int, Option<Seq<FailureView>>) {
    match spec_ws_tag(s, pos, "failures:"@) {
        Some(p1) => match spec_failures(s, p1) {
            Some((p2, fs)) => match spec_find(s, p2, "test result: "@) {
                Some(e) => (e, Some(fs)),
                None => (pos, None),
            },
            None => (pos, None),
        },
        None => (pos, None),
    }
}

/// Parse the header line of one failure section.
pub fn fail_line_at(sc: &Scanner, pos: usize) -> (r: Option<(usize, String)>)
    requires
        sc.wf(),
        pos <= sc.chars@.len(),
    ensures
        match r {
            Some((q, name)) => spec_fail_line(sc.chars@, pos as int) == Some((q as int, name@))
                && q <= sc.chars@.len(),
            None => spec_fail_line(sc.chars@, pos as int) is None,
        },
{
    proof {
        reveal_strlit(" ");
    }
    let q = match ws_tag(sc, pos, "----") {
        Some(p) => p,
        None => {
            return None;
        },
    };
    let e = match find_from(sc, q, " ") {
        Some(p) => p,
        None => {
            return None;
        },
    };
    let name = sc.substr(q, e);
    let q2 = match ws_tag(sc, e, "stdout") {
        Some(p) => p,
        None => {
            return None;
        },
    };
    let q3 = match ws_tag(sc, q2, "----") {
        Some(p) => p,
        None => {
            return None;
        },
    };
    Some((q3, name))
}

/// Parse one failure section.
pub fn failure_at(sc: &Scanner, pos: usize) -> (r: Option<(usize, Failure)>)
    requires
        sc.wf(),
        pos <= sc.chars@.len(),
    ensures
        match r {
            Some((q, f)) => spec_failure(sc.chars@, pos as int) == Some((q as int, f@)) && q
                <= sc.chars@.len(),
            None => spec_failure(sc.chars@, pos as int) is None,
        },
{
    proof {
        reveal_strlit("\n\n");
    }
    let n: usize = sc.chars.len();
    let (p1, name) = match fail_line_at(sc, pos) {
        Some(x) => x,
        None => {
            return None;
        },
    };
    let e = match find_from(sc, p1, "\n\n") {
        Some(p) => p,
        None => {
            return None;
        },
    };
    let tail = "\nnote: Run with `RUST_BACKTRACE=1` for a backtrace.";
    let tl: usize = tail.unicode_len();
    let ghost raw = sc.chars@.subrange(p1 as int, e as int);
    let error: String;
    if e - p1 >= tl && match_at(sc, e - tl, tail) {
        proof {
            assert(raw.subrange(raw.len() - tail@.len(), raw.len() as int) =~= sc.chars@.subrange(
                e - tl,
                e as int,
            ));
            assert(raw.subrange(0, raw.len() - tail@.len()) =~= sc.chars@.subrange(
                p1 as int,
                e - tl,
            ));
        }
        error = sc.substr(p1, e - tl);
    } else {
        proof {
            if raw.len() >= tail@.len() {
                assert(raw.subrange(raw.len() - tail@.len(), raw.len() as int)
                    =~= sc.chars@.subrange(e - tl, e as int));
            }
        }
        error = sc.substr(p1, e);
    }
    Some((e + 2, Failure { name, error }))
}

/// Parse one or more failure sections.
pub fn failures_at(sc: &Scanner, pos: usize) -> (r: Option<(usize, Vec<Failure>)>)
    requires
        sc.wf(),
        pos <= sc.chars@.len(),
    ensures
        match r {
            Some((q, fs)) => spec_failures(sc.chars@, pos as int) == Some(
                (q as int, failures_view(fs@)),
            ) && q <= sc.chars@.len(),
            None => spec_failures(sc.chars@, pos as int) is None,
        },
{
    match failure_at(sc, pos) {
        None => {
            return None;
        },
        Some(_) => {
        },
    }
    let mut acc: Vec<Failure> = Vec::new();
    let mut p: usize = pos;
    loop
        invariant
            sc.wf(),
            p <= sc.chars@.len(),
            spec_failures_from(sc.chars@, pos as int).0 == spec_failures_from(
                sc.chars@,
                p as int,
            ).0,
            spec_failures_from(sc.chars@, pos as int).1 == failures_view(acc@)
                + spec_failures_from(sc.chars@, p as int).1,
        ensures
            p <= sc.chars@.len(),
            spec_failures_from(sc.chars@, pos as int) == (p as int, failures_view(acc@)),
        decreases sc.chars@.len() - p,
    {
        proof {
            assert(failures_view(acc@) + Seq::<FailureView>::empty() =~= failures_view(acc@));
        }
        match failure_at(sc, p) {
            None => {
                break;
            },
            Some((q, f)) => {
                if q <= p {
                    break;
                }
                acc.push(f);
                proof {
                    assert(failures_view(acc@) =~= failures_view(acc@.drop_last()) + seq![f@]);
                    assert(failures_view(acc@.drop_last()) + (seq![f@] + spec_failures_from(
                        sc.chars@,
                        q as int,
                    ).1) =~= failures_view(acc@) + spec_failures_from(sc.chars@, q as int).1);
                }
                p = q;
            },
        }
    }
    Some((p, acc))
}

/// Parse the optional failure block; the first component of the result is
/// the new position, which is unchanged when no block was recognized.
pub fn fail_opt_at(sc: &Scanner, pos: usize) -> (r: (usize, Option<Vec<Failure>>))
    requires
        sc.wf(),
        pos <= sc.chars@.len(),
    ensures
        r.0 <= sc.chars@.len(),
        spec_fail_opt(sc.chars@, pos as int) == (
            r.0 as int,
            match r.1 {
                Some(fs) => Some(failures_view(fs@)),
                None => None::<Seq<FailureView>>,
            },
        ),
{
    proof {
        reveal_strlit("test result: ");
    }
    let p1 = match ws_tag(sc, pos, "failures:") {
        Some(p) => p,
        None => {
            return (pos, None);
        },
    };
    let (p2, fs) = match failures_at(sc, p1) {
        Some(x) => x,
        None => {
            return (pos, None);
        },
    };
    match find_from(sc, p2, "test result: ") {
        Some(e) => (e, Some(fs)),
        None => (pos, None),
    }
}

/// Parse the header line of one failure section from the start of `s`.
pub fn fail_line(s: &str) -> (r: Option<(usize, String)>)
    ensures
        match r {
            Some((q, name)) => spec_fail_line(s@, 0) == Some((q as int, name@)),
            None => spec_fail_line(s@, 0) is None,
        },
{
    let sc = Scanner::new(s);
    fail_line_at(&sc, 0)
}

/// Parse one failure section from the start of `s`.
pub fn failure(s: &str) -> (r: Option<(usize, Failure)>)
    ensures
        match r {
            Some((q, f)) => spec_failure(s@, 0) == Some((q as int, f@)),
            None => spec_failure(s@, 0) is None,
        },
{
    let sc = Scanner::new(s);
    failure_at(&sc, 0)
}

/// Parse one or more failure sections from the start of `s`.
pub fn failures(s: &str) -> (r: Option<(usize, Vec<Failure>)>)
    ensures
        match r {
            Some((q, fs)) => spec_failures(s@, 0) == Some((q as int, failures_view(fs@))),
            None => spec_failures(s@, 0) is None,
        },
{
    let sc = Scanner::new(s);
    failures_at(&sc, 0)
}

/// Parse the optional failure block from the start of `s`.
pub fn fail_opt(s: &str) -> (r: (usize, Option<Vec<Failure>>))
    ensures
        spec_fail_opt(s@, 0) == (
            r.0 as int,
            match r.1 {
                Some(fs) => Some(failures_view(fs@)),
                None => None::<Seq<FailureView>>,
            },
        ),
{
    let sc = Scanner::new(s);
    fail_opt_at(&sc, 0)
}

} // verus!
