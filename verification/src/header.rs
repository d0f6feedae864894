//! The build-progress preamble: zero or more lines such as
//! `Compiling foo v0.1.0` or `Finished dev [unoptimized] target(s)` that
//! precede the actual test output and are discarded in full.

use crate::utility_parsers::{
    rest_of_line_at, spec_rest_of_line, spec_ws_tag, ws_tag, Scanner,
};
use vstd::prelude::*;

verus! {

/// One preamble line: the given prefix (with surrounding whitespace), then
/// the rest of the line, all discarded.
pub open spec fn spec_preamble_line(s: Seq<char>, pos: int, prefix: Seq<char>) -> Option<int> {
    match spec_ws_tag(s, pos, prefix) {
        Some(p) => match spec_rest_of_line(s, p) {
            Some((q, _)) => Some(q),
            None => None,
        },
        None => None,
    }
}

/// One preamble line of any recognized shape.
pub open spec fn spec_preamble_step(s: Seq<char>, pos: int) -> Option<int> {
    match spec_preamble_line(s, pos, "Updating"@) {
        Some(q) => Some(q),
        None => match spec_preamble_line(s, pos, "Downloading"@) {
            Some(q) => Some(q),
            None => match spec_preamble_line(s, pos, "Downloaded"@) {
                Some(q) => Some(q),
                None => match spec_preamble_line(s, pos, "Installing"@) {
                    Some(q) => Some(q),
                    None => match spec_preamble_line(s, pos, "Compiling"@) {
                        Some(q) => Some(q),
                        None => match spec_preamble_line(s, pos, "Finished"@) {
                            Some(q) => Some(q),
                            None => spec_preamble_line(s, pos, "Blocking"@),
                        },
                    },
                },
            },
        },
    }
}

/// The whole preamble: as many recognized lines as follow each other.
/// Always succeeds; consuming nothing is a valid outcome.
pub open spec fn spec_cargo_header(s: Seq<char>, pos: int) -> int
    decreases s.len() - pos,
{
    match spec_preamble_step(s, pos) {
        Some(q) => {
            if pos < q <= s.len() {
                spec_cargo_header(s, q)
            } else {
                pos
            }
        },
        None => pos,
    }
}

/// Parse one preamble line with the given prefix at `pos`.
pub fn preamble_line_at(sc: &Scanner, pos: usize, prefix: &str) -> (r: Option<usize>)
    requires
        sc.wf(),
        pos <= sc.chars@.len(),
    ensures
        match r {
            Some(q) => spec_preamble_line(sc.chars@, pos as int, prefix@) == Some(q as int) && q
                <= sc.chars@.len(),
            None => spec_preamble_line(sc.chars@, pos as int, prefix@) is None,
        },
{
    match ws_tag(sc, pos, prefix) {
        Some(p) => match rest_of_line_at(sc, p) {
            Some((q, _)) => Some(q),
            None => None,
        },
        None => None,
    }
}

/// Parse one preamble line of any recognized shape at `pos`.
pub fn preamble_step_at(sc: &Scanner, pos: usize) -> (r: Option<usize>)
    requires
        sc.wf(),
        pos <= sc.chars@.len(),
    ensures
        match r {
            Some(q) => spec_preamble_step(sc.chars@, pos as int) == Some(q as int) && q
                <= sc.chars@.len(),
            None => spec_preamble_step(sc.chars@, pos as int) is None,
        },
{
    if let Some(q) = preamble_line_at(sc, pos, "Updating") {
        return Some(q);
    }
    if let Some(q) = preamble_line_at(sc, pos, "Downloading") {
        return Some(q);
    }
    if let Some(q) = preamble_line_at(sc, pos, "Downloaded") {
        return Some(q);
    }
    if let Some(q) = preamble_line_at(sc, pos, "Installing") {
        return Some(q);
    }
    if let Some(q) = preamble_line_at(sc, pos, "Compiling") {
        return Some(q);
    }
    if let Some(q) = preamble_line_at(sc, pos, "Finished") {
        return Some(q);
    }
    preamble_line_at(sc, pos, "Blocking")
}

/// Skip the whole preamble at `pos`.
pub fn cargo_header_at(sc: &Scanner, pos: usize) -> (r: usize)
    requires
        sc.wf(),
        pos <= sc.chars@.len(),
    ensures
        r == spec_cargo_header(sc.chars@, pos as int),
        r <= sc.chars@.len(),
{
    let mut p: usize = pos;
    loop
        invariant
            sc.wf(),
            p <= sc.chars@.len(),
            spec_cargo_header(sc.chars@, pos as int) == spec_cargo_header(sc.chars@, p as int),
        ensures
            p <= sc.chars@.len(),
            spec_cargo_header(sc.chars@, pos as int) == p as int,
        decreases sc.chars@.len() - p,
    {
        match preamble_step_at(sc, p) {
            None => {
                break;
            },
            Some(q) => {
                if q <= p {
                    break;
                }
                p = q;
            },
        }
    }
    p
}

/// Parse one `Updating` line from the start of `s`.
pub fn updating(s: &str) -> (r: Option<usize>)
    ensures
        match r {
            Some(q) => spec_preamble_line(s@, 0, "Updating"@) == Some(q as int),
            None => spec_preamble_line(s@, 0, "Updating"@) is None,
        },
{
    let sc = Scanner::new(s);
    preamble_line_at(&sc, 0, "Updating")
}

/// Parse one `Downloading` line from the start of `s`.
pub fn downloading(s: &str) -> (r: Option<usize>)
    ensures
        match r {
            Some(q) => spec_preamble_line(s@, 0, "Downloading"@) == Some(q as int),
            None => spec_preamble_line(s@, 0, "Downloading"@) is None,
        },
{
    let sc = Scanner::new(s);
    preamble_line_at(&sc, 0, "Downloading")
}

/// Parse one `Downloaded` line from the start of `s`.
pub fn downloaded(s: &str) -> (r: Option<usize>)
    ensures
        match r {
            Some(q) => spec_preamble_line(s@, 0, "Downloaded"@) == Some(q as int),
            None => spec_preamble_line(s@, 0, "Downloaded"@) is None,
        },
{
    let sc = Scanner::new(s);
    preamble_line_at(&sc, 0, "Downloaded")
}

/// Parse one `Installing` line from the start of `s`.
pub fn installing(s: &str) -> (r: Option<usize>)
    ensures
        match r {
            Some(q) => spec_preamble_line(s@, 0, "Installing"@) == Some(q as int),
            None => spec_preamble_line(s@, 0, "Installing"@) is None,
        },
{
    let sc = Scanner::new(s);
    preamble_line_at(&sc, 0, "Installing")
}

/// Parse one `Compiling` line from the start of `s`.
pub fn compiling(s: &str) -> (r: Option<usize>)
    ensures
        match r {
            Some(q) => spec_preamble_line(s@, 0, "Compiling"@) == Some(q as int),
            None => spec_preamble_line(s@, 0, "Compiling"@) is None,
        },
{
    let sc = Scanner::new(s);
    preamble_line_at(&sc, 0, "Compiling")
}

/// Parse one `Finished` line from the start of `s`.
pub fn finished(s: &str) -> (r: Option<usize>)
    ensures
        match r {
            Some(q) => spec_preamble_line(s@, 0, "Finished"@) == Some(q as int),
            None => spec_preamble_line(s@, 0, "Finished"@) is None,
        },
{
    let sc = Scanner::new(s);
    preamble_line_at(&sc, 0, "Finished")
}

/// Parse one `Blocking` line (a file-lock wait) from the start of `s`.
pub fn blocking(s: &str) -> (r: Option<usize>)
    ensures
        match r {
            Some(q) => spec_preamble_line(s@, 0, "Blocking"@) == Some(q as int),
            None => spec_preamble_line(s@, 0, "Blocking"@) is None,
        },
{
    let sc = Scanner::new(s);
    preamble_line_at(&sc, 0, "Blocking")
}

/// Skip the whole preamble from the start of `s`; the result is the
/// position of the first unconsumed character.
pub fn cargo_header(s: &str) -> (r: usize)
    ensures
        r == spec_cargo_header(s@, 0),
{
    let sc = Scanner::new(s);
    cargo_header_at(&sc, 0)
}

} // verus!
