//! Primitive token parsers: whitespace skipping, literal matching,
//! rest-of-line, decimal counts and the two status tokens.
//!
//! Every executable parser here is specified against a spec-level function
//! over the input's characters; the spec functions are the authoritative
//! description of the grammar's tokens.

use vstd::prelude::*;
use vstd::std_specs::iter::IteratorSpec;
use vstd::string::StrSliceExecFns;
use vstd::string::StringExecFns;

verus! {

broadcast use vstd::string::group_string_axioms;

/// Whitespace as the grammar counts it: space, tab, carriage return, newline.
pub open spec fn is_wsp_char(c: char) -> bool {
    c == ' ' || c == '\t' || c == '\r' || c == '\n'
}

/// The space characters accepted between a test line's tokens.
pub open spec fn is_space_char(c: char) -> bool {
    c == ' ' || c == '\t'
}

/// An ASCII decimal digit.
pub open spec fn is_digit_char(c: char) -> bool {
    48 <= c as u32 && c as u32 <= 57
}

/// Index of the first character at or after `pos` that is not whitespace
/// (or the end of the input).
pub open spec fn spec_skip_ws(s: Seq<char>, pos: int) -> int
    decreases s.len() - pos,
{
    if pos < s.len() && is_wsp_char(s[pos]) {
        spec_skip_ws(s, pos + 1)
    } else {
        pos
    }
}

/// The literal `tok` occurs at position `pos` of `s`.
pub open spec fn spec_match_at(s: Seq<char>, pos: int, tok: Seq<char>) -> bool {
    &&& 0 <= pos
    &&& pos + tok.len() <= s.len()
    &&& s.subrange(pos, pos + tok.len()) == tok
}

/// Position of the first occurrence of `tok` at or after `pos`, if any.
pub open spec fn spec_find(s: Seq<char>, pos: int, tok: Seq<char>) -> Option<int>
    decreases s.len() - pos,
{
    if tok.len() < 1 || pos < 0 || pos + tok.len() > s.len() {
        None
    } else if spec_match_at(s, pos, tok) {
        Some(pos)
    } else {
        spec_find(s, pos + 1, tok)
    }
}

/// Position of the first line-terminator character at or after `pos`, if any.
pub open spec fn spec_find_line_end(s: Seq<char>, pos: int) -> Option<int>
    decreases s.len() - pos,
{
    if pos < 0 || pos >= s.len() {
        None
    } else if s[pos] == '\n' || s[pos] == '\r' {
        Some(pos)
    } else {
        spec_find_line_end(s, pos + 1)
    }
}

/// Rest-of-line token: the text before the next line terminator; the
/// terminator itself (`\n` or `\r\n`) is consumed.  Fails when no complete
/// terminator follows.
pub open spec fn spec_rest_of_line(s: Seq<char>, pos: int) -> Option<(int, Seq<char>)> {
    match spec_find_line_end(s, pos) {
        Some(e) => {
            if s[e] == '\n' {
                Some((e + 1, s.subrange(pos, e)))
            } else if e + 1 < s.len() && s[e + 1] == '\n' {
                Some((e + 2, s.subrange(pos, e)))
            } else {
                None
            }
        },
        None => None,
    }
}

/// A literal with surrounding whitespace: skip whitespace, match `tok`,
/// skip whitespace again.
pub open spec fn spec_ws_tag(s: Seq<char>, pos: int, tok: Seq<char>) -> Option<int> {
    let a = spec_skip_ws(s, pos);
    if spec_match_at(s, a, tok) {
        Some(spec_skip_ws(s, a + tok.len()))
    } else {
        None
    }
}

/// Index of the first character at or after `pos` that is not a digit.
pub open spec fn spec_digit_run_end(s: Seq<char>, pos: int) -> int
    decreases s.len() - pos,
{
    if 0 <= pos && pos < s.len() && is_digit_char(s[pos]) {
        spec_digit_run_end(s, pos + 1)
    } else {
        pos
    }
}

/// Value of the decimal digit run `s[from..to]`.
pub open spec fn spec_digits_value(s: Seq<char>, from: int, to: int) -> int
    decreases to - from,
{
    if from >= to {
        0
    } else {
        spec_digits_value(s, from, to - 1) * 10 + (s[to - 1] as u32 - 48)
    }
}

/// Count token: optional whitespace, one or more decimal digits, optional
/// whitespace.  Fails when no digit is present or the value does not fit a
/// 64-bit signed integer.
pub open spec fn spec_digits(s: Seq<char>, pos: int) -> Option<(int, int)> {
    let a = spec_skip_ws(s, pos);
    let e = spec_digit_run_end(s, a);
    if e <= a {
        None
    } else if spec_digits_value(s, a, e) > i64::MAX as int {
        None
    } else {
        Some((spec_skip_ws(s, e), spec_digits_value(s, a, e)))
    }
}

/// Status token: the literal "ok" means a pass, the literal "FAILED" a
/// failure; nothing else matches.
pub open spec fn spec_status(s: Seq<char>, pos: int) -> Option<(int, Seq<char>)> {
    if spec_match_at(s, pos, "ok"@) {
        Some((pos + "ok"@.len(), "pass"@))
    } else if spec_match_at(s, pos, "FAILED"@) {
        Some((pos + "FAILED"@.len(), "fail"@))
    } else {
        None
    }
}

/// Index of the first character at or after `pos` that is neither a space
/// nor a tab.
pub open spec fn spec_space_run_end(s: Seq<char>, pos: int) -> int
    decreases s.len() - pos,
{
    if 0 <= pos && pos < s.len() && is_space_char(s[pos]) {
        spec_space_run_end(s, pos + 1)
    } else {
        pos
    }
}

/// One or more spaces or tabs.
pub open spec fn spec_space1(s: Seq<char>, pos: int) -> Option<int> {
    let e = spec_space_run_end(s, pos);
    if e <= pos {
        None
    } else {
        Some(e)
    }
}

/// The input to the parsers: the transcript text together with its
/// characters, so that positions are character indices with constant-time
/// access.
pub struct Scanner {
    pub text: String,
    pub chars: Vec<char>,
}

impl Scanner {
    /// The two representations hold the same characters.
    pub open spec fn wf(&self) -> bool {
        self.chars@ == self.text@
    }

    pub fn new(s: &str) -> (sc: Scanner)
        ensures
            sc.wf(),
            sc.chars@ == s@,
    {
        let text = String::from_str(s);
        let chars = chars_of(s);
        Scanner { text, chars }
    }

    pub fn length(&self) -> (n: usize)
        ensures
            n == self.chars@.len(),
    {
        self.chars.len()
    }

    pub fn at(&self, i: usize) -> (c: char)
        requires
            i < self.chars@.len(),
        ensures
            c == self.chars@[i as int],
    {
        self.chars[i]
    }

    pub fn substr(&self, from: usize, to: usize) -> (r: String)
        requires
            self.wf(),
            from <= to <= self.chars@.len(),
        ensures
            r@ == self.chars@.subrange(from as int, to as int),
    {
        let piece: &str = self.text.as_str().substring_char(from, to);
        String::from_str(piece)
    }
}

/// The characters of a string, in order.
fn chars_of(s: &str) -> (v: Vec<char>)
    ensures
        v@ == s@,
{
    let mut it = s.chars();
    let mut v: Vec<char> = Vec::new();
    proof {
        assert(v@ + it.remaining() =~= s@);
    }
    loop
        invariant
            it.obeys_prophetic_iter_laws(),
            it.decrease() is Some,
            v@ + it.remaining() == s@,
        ensures
            v@ == s@,
        decreases it.decrease()->0,
    {
        match it.next() {
            Some(c) => {
                v.push(c);
                proof {
                    assert(v@ + it.remaining() =~= s@);
                }
            },
            None => {
                proof {
                    assert(v@ =~= s@);
                }
                break;
            },
        }
    }
    v
}

fn is_wsp(c: char) -> (b: bool)
    ensures
        b == is_wsp_char(c),
{
    c == ' ' || c == '\t' || c == '\r' || c == '\n'
}

fn is_digit(c: char) -> (b: bool)
    ensures
        b == is_digit_char(c),
{
    let u = c as u32;
    48 <= u && u <= 57
}

fn is_space(c: char) -> (b: bool)
    ensures
        b == is_space_char(c),
{
    c == ' ' || c == '\t'
}

pub fn skip_ws(sc: &Scanner, pos: usize) -> (r: usize)
    requires
        pos <= sc.chars@.len(),
    ensures
        r == spec_skip_ws(sc.chars@, pos as int),
        pos <= r <= sc.chars@.len(),
{
    let mut i: usize = pos;
    while i < sc.chars.len()
        invariant
            pos <= i <= sc.chars@.len(),
            spec_skip_ws(sc.chars@, pos as int) == spec_skip_ws(sc.chars@, i as int),
        ensures
            i == spec_skip_ws(sc.chars@, pos as int),
        decreases sc.chars@.len() - i,
    {
        if !is_wsp(sc.at(i)) {
            break;
        }
        i = i + 1;
    }
    i
}

/// Whether the literal `tok` occurs at position `pos`.
pub fn match_at(sc: &Scanner, pos: usize, tok: &str) -> (b: bool)
    requires
        pos <= sc.chars@.len(),
    ensures
        b == spec_match_at(sc.chars@, pos as int, tok@),
{
    let tl: usize = tok.unicode_len();
    let n: usize = sc.chars.len();
    if tl > n - pos {
        return false;
    }
    let mut k: usize = 0;
    while k < tl
        invariant
            0 <= k <= tl,
            tl == tok@.len(),
            n == sc.chars@.len(),
            pos + tl <= n,
            forall|j: int| 0 <= j < k ==> sc.chars@[pos + j] == tok@[j],
        decreases tl - k,
    {
        if sc.at(pos + k) != tok.get_char(k) {
            proof {
                if spec_match_at(sc.chars@, pos as int, tok@) {
                    assert(sc.chars@.subrange(pos as int, pos + tok@.len())[k as int]
                        == tok@[k as int]);
                }
            }
            return false;
        }
        k = k + 1;
    }
    proof {
        assert(sc.chars@.subrange(pos as int, pos + tok@.len()) =~= tok@);
    }
    true
}

/// The literal `tok` at `pos`, with nothing skipped around it.
pub open spec fn spec_tag(s: Seq<char>, pos: int, tok: Seq<char>) -> Option<int> {
    if spec_match_at(s, pos, tok) {
        Some(pos + tok.len())
    } else {
        None
    }
}

/// Match a plain literal at `pos`.
pub fn tag_at(sc: &Scanner, pos: usize, tok: &str) -> (r: Option<usize>)
    requires
        pos <= sc.chars@.len(),
    ensures
        match r {
            Some(q) => spec_tag(sc.chars@, pos as int, tok@) == Some(q as int) && q
                <= sc.chars@.len(),
            None => spec_tag(sc.chars@, pos as int, tok@) is None,
        },
{
    let n: usize = sc.chars.len();
    if match_at(sc, pos, tok) {
        let tl: usize = tok.unicode_len();
        proof {
            assert(pos + tl <= n);
        }
        Some(pos + tl)
    } else {
        None
    }
}

/// Match a literal with whitespace skipped on both sides of it.
pub fn ws_tag(sc: &Scanner, pos: usize, tok: &str) -> (r: Option<usize>)
    requires
        pos <= sc.chars@.len(),
    ensures
        match r {
            Some(q) => spec_ws_tag(sc.chars@, pos as int, tok@) == Some(q as int) && q
                <= sc.chars@.len(),
            None => spec_ws_tag(sc.chars@, pos as int, tok@) is None,
        },
{
    let n: usize = sc.chars.len();
    let a = skip_ws(sc, pos);
    if match_at(sc, a, tok) {
        let tl: usize = tok.unicode_len();
        proof {
            assert(a + tl <= n);
        }
        Some(skip_ws(sc, a + tl))
    } else {
        None
    }
}

/// First occurrence of the literal `tok` at or after `pos`.
pub fn find_from(sc: &Scanner, pos: usize, tok: &str) -> (r: Option<usize>)
    requires
        pos <= sc.chars@.len(),
        tok@.len() >= 1,
    ensures
        match r {
            Some(e) => spec_find(sc.chars@, pos as int, tok@) == Some(e as int) && pos <= e && e
                + tok@.len() <= sc.chars@.len(),
            None => spec_find(sc.chars@, pos as int, tok@) is None,
        },
{
    let tl: usize = tok.unicode_len();
    let n: usize = sc.chars.len();
    let mut i: usize = pos;
    loop
        invariant
            pos <= i <= n,
            n == sc.chars@.len(),
            tl == tok@.len(),
            tok@.len() >= 1,
            spec_find(sc.chars@, pos as int, tok@) == spec_find(sc.chars@, i as int, tok@),
        decreases n - i,
    {
        if tl > n - i {
            return None;
        }
        if match_at(sc, i, tok) {
            return Some(i);
        }
        i = i + 1;
    }
}

/// First line-terminator character at or after `pos`.
pub fn find_line_end(sc: &Scanner, pos: usize) -> (r: Option<usize>)
    requires
        pos <= sc.chars@.len(),
    ensures
        match r {
            Some(e) => spec_find_line_end(sc.chars@, pos as int) == Some(e as int) && pos <= e && e
                < sc.chars@.len(),
            None => spec_find_line_end(sc.chars@, pos as int) is None,
        },
{
    let n: usize = sc.chars.len();
    let mut i: usize = pos;
    loop
        invariant
            pos <= i <= n,
            n == sc.chars@.len(),
            spec_find_line_end(sc.chars@, pos as int) == spec_find_line_end(
                sc.chars@,
                i as int,
            ),
        decreases n - i,
    {
        if i >= n {
            return None;
        }
        let c = sc.at(i);
        if c == '\n' || c == '\r' {
            return Some(i);
        }
        i = i + 1;
    }
}

/// Rest-of-line token at `pos`.
pub fn rest_of_line_at(sc: &Scanner, pos: usize) -> (r: Option<(usize, String)>)
    requires
        sc.wf(),
        pos <= sc.chars@.len(),
    ensures
        match r {
            Some((q, content)) => spec_rest_of_line(sc.chars@, pos as int) == Some(
                (q as int, content@),
            ) && q <= sc.chars@.len(),
            None => spec_rest_of_line(sc.chars@, pos as int) is None,
        },
{
    let n: usize = sc.chars.len();
    match find_line_end(sc, pos) {
        None => None,
        Some(e) => {
            if sc.at(e) == '\n' {
                Some((e + 1, sc.substr(pos, e)))
            } else if e + 1 < n && sc.at(e + 1) == '\n' {
                Some((e + 2, sc.substr(pos, e)))
            } else {
                None
            }
        },
    }
}

/// Status token at `pos`: "ok" yields "pass", "FAILED" yields "fail".
pub fn status_at(sc: &Scanner, pos: usize) -> (r: Option<(usize, String)>)
    requires
        pos <= sc.chars@.len(),
    ensures
        match r {
            Some((q, st)) => spec_status(sc.chars@, pos as int) == Some((q as int, st@)) && q
                <= sc.chars@.len(),
            None => spec_status(sc.chars@, pos as int) is None,
        },
{
    let n: usize = sc.chars.len();
    if match_at(sc, pos, "ok") {
        let tl: usize = "ok".unicode_len();
        proof {
            assert(pos + tl <= n);
        }
        Some((pos + tl, String::from_str("pass")))
    } else if match_at(sc, pos, "FAILED") {
        let tl: usize = "FAILED".unicode_len();
        proof {
            assert(pos + tl <= n);
        }
        Some((pos + tl, String::from_str("fail")))
    } else {
        None
    }
}

/// The value of the digit run grows with the run; both lemmas below feed the
/// overflow check in `digits_at`.
proof fn lemma_digits_value_nonneg(s: Seq<char>, from: int, to: int)
    requires
        forall|j: int| from <= j < to ==> is_digit_char(s[j]),
    ensures
        spec_digits_value(s, from, to) >= 0,
    decreases to - from,
{
    if from < to {
        lemma_digits_value_nonneg(s, from, to - 1);
    }
}

proof fn lemma_digits_value_grows(s: Seq<char>, from: int, to1: int, to2: int)
    requires
        to1 <= to2,
        forall|j: int| from <= j < to2 ==> is_digit_char(s[j]),
    ensures
        spec_digits_value(s, from, to1) <= spec_digits_value(s, from, to2),
    decreases to2 - to1,
{
    if to1 < to2 {
        lemma_digits_value_grows(s, from, to1, to2 - 1);
        lemma_digits_value_nonneg(s, from, to2 - 1);
    }
}

/// Match one or more spaces or tabs at `pos`.
pub fn space1_at(sc: &Scanner, pos: usize) -> (r: Option<usize>)
    requires
        pos <= sc.chars@.len(),
    ensures
        match r {
            Some(q) => spec_space1(sc.chars@, pos as int) == Some(q as int) && pos <= q
                <= sc.chars@.len(),
            None => spec_space1(sc.chars@, pos as int) is None,
        },
{
    let n: usize = sc.chars.len();
    let mut i: usize = pos;
    while i < n
        invariant
            pos <= i <= n,
            n == sc.chars@.len(),
            spec_space_run_end(sc.chars@, pos as int) == spec_space_run_end(sc.chars@, i as int),
        ensures
            i == spec_space_run_end(sc.chars@, pos as int),
        decreases n - i,
    {
        if !is_space(sc.at(i)) {
            break;
        }
        i = i + 1;
    }
    if i == pos {
        None
    } else {
        Some(i)
    }
}

/// A found line end lies within the input and holds a terminator.
pub proof fn lemma_find_line_end_bounds(s: Seq<char>, pos: int)
    ensures
        spec_find_line_end(s, pos) matches Some(e) ==> pos <= e < s.len() && (s[e] == '\n' || s[e]
            == '\r'),
    decreases s.len() - pos,
{
    if !(pos < 0 || pos >= s.len()) && !(s[pos] == '\n' || s[pos] == '\r') {
        lemma_find_line_end_bounds(s, pos + 1);
    }
}

/// A found literal lies at or after the start position and within the
/// input.
pub proof fn lemma_find_bounds(s: Seq<char>, pos: int, tok: Seq<char>)
    ensures
        spec_find(s, pos, tok) matches Some(e) ==> pos <= e && 0 <= e && e + tok.len() <= s.len()
            && spec_match_at(s, e, tok),
    decreases s.len() - pos,
{
    if !(tok.len() < 1 || pos < 0 || pos + tok.len() > s.len()) && !spec_match_at(s, pos, tok) {
        lemma_find_bounds(s, pos + 1, tok);
    }
}

/// A space run never moves backwards nor past the end.
pub proof fn lemma_space_run_bound(s: Seq<char>, pos: int)
    ensures
        pos <= spec_space_run_end(s, pos),
        pos <= s.len() ==> spec_space_run_end(s, pos) <= s.len(),
    decreases s.len() - pos,
{
    if 0 <= pos && pos < s.len() && is_space_char(s[pos]) {
        lemma_space_run_bound(s, pos + 1);
    }
}

/// Skipping whitespace never moves backwards nor past the end.
pub proof fn lemma_skip_ws_bounds(s: Seq<char>, pos: int)
    ensures
        pos <= spec_skip_ws(s, pos),
        pos <= s.len() ==> spec_skip_ws(s, pos) <= s.len(),
    decreases s.len() - pos,
{
    if pos < s.len() && is_wsp_char(s[pos]) {
        lemma_skip_ws_bounds(s, pos + 1);
    }
}

/// A digit run never moves backwards nor past the end.
pub proof fn lemma_digit_run_bound(s: Seq<char>, pos: int)
    ensures
        pos <= spec_digit_run_end(s, pos),
        pos <= s.len() ==> spec_digit_run_end(s, pos) <= s.len(),
    decreases s.len() - pos,
{
    if 0 <= pos && pos < s.len() && is_digit_char(s[pos]) {
        lemma_digit_run_bound(s, pos + 1);
    }
}

/// Every character of a digit run is a digit.
proof fn lemma_digit_run(s: Seq<char>, pos: int)
    ensures
        pos <= spec_digit_run_end(s, pos),
        forall|j: int| pos <= j < spec_digit_run_end(s, pos) ==> is_digit_char(s[j]),
    decreases s.len() - pos,
{
    if 0 <= pos && pos < s.len() && is_digit_char(s[pos]) {
        lemma_digit_run(s, pos + 1);
    }
}

/// A parsed count is never negative.
pub proof fn lemma_spec_digits_nonneg(s: Seq<char>, pos: int)
    ensures
        spec_digits(s, pos) matches Some((q, v)) ==> v >= 0,
{
    let a = spec_skip_ws(s, pos);
    let e = spec_digit_run_end(s, a);
    lemma_digit_run(s, a);
    if a < e {
        lemma_digits_value_nonneg(s, a, e);
    }
}

/// Count token at `pos`.
pub fn digits_at(sc: &Scanner, pos: usize) -> (r: Option<(usize, i64)>)
    requires
        pos <= sc.chars@.len(),
    ensures
        match r {
            Some((q, v)) => spec_digits(sc.chars@, pos as int) == Some((q as int, v as int)) && q
                <= sc.chars@.len(),
            None => spec_digits(sc.chars@, pos as int) is None,
        },
{
    let a = skip_ws(sc, pos);
    let n: usize = sc.chars.len();
    let mut i: usize = a;
    let mut val: i64 = 0;
    let mut too_big: bool = false;
    loop
        invariant
            a <= i <= n,
            n == sc.chars@.len(),
            forall|j: int| a <= j < i ==> is_digit_char(sc.chars@[j]),
            spec_digit_run_end(sc.chars@, a as int) == spec_digit_run_end(sc.chars@, i as int),
            !too_big ==> val == spec_digits_value(sc.chars@, a as int, i as int) && 0 <= val,
            too_big ==> spec_digits_value(sc.chars@, a as int, i as int) > i64::MAX as int,
        ensures
            i == spec_digit_run_end(sc.chars@, a as int),
            !too_big ==> val == spec_digits_value(sc.chars@, a as int, i as int),
            too_big ==> spec_digits_value(sc.chars@, a as int, i as int) > i64::MAX as int,
        decreases n - i,
    {
        if i >= n {
            break;
        }
        let c = sc.at(i);
        if !is_digit(c) {
            break;
        }
        let d: u32 = c as u32 - 48;
        if too_big {
            proof {
                lemma_digits_value_grows(sc.chars@, a as int, i as int, i + 1);
            }
        } else if val > (i64::MAX - d as i64) / 10 {
            too_big = true;
            proof {
                let x: int = i64::MAX - d;
                assert(10 * (x / 10) <= x) by (nonlinear_arith)
                    requires
                        x >= 0,
                ;
                assert(val * 10 > x) by (nonlinear_arith)
                    requires
                        val > x / 10,
                        10 * (x / 10) <= x,
                        val >= 0,
                ;
            }
        } else {
            proof {
                let x: int = i64::MAX - d;
                assert(10 * (x / 10) <= x) by (nonlinear_arith)
                    requires
                        x >= 0,
                ;
                assert(val * 10 <= 10 * (x / 10)) by (nonlinear_arith)
                    requires
                        0 <= val <= x / 10,
                ;
            }
            val = val * 10 + d as i64;
        }
        i = i + 1;
    }
    if i == a {
        return None;
    }
    if too_big {
        return None;
    }
    Some((skip_ws(sc, i), val))
}

/// Rest-of-line token from the start of `s`.
pub fn rest_of_line(s: &str) -> (r: Option<(usize, String)>)
    ensures
        match r {
            Some((q, content)) => spec_rest_of_line(s@, 0) == Some((q as int, content@)),
            None => spec_rest_of_line(s@, 0) is None,
        },
{
    let sc = Scanner::new(s);
    rest_of_line_at(&sc, 0)
}

/// Status token from the start of `s`.
pub fn ok_or_failed(s: &str) -> (r: Option<(usize, String)>)
    ensures
        match r {
            Some((q, st)) => spec_status(s@, 0) == Some((q as int, st@)),
            None => spec_status(s@, 0) is None,
        },
{
    let sc = Scanner::new(s);
    status_at(&sc, 0)
}

/// Count token from the start of `s`.
pub fn digits(s: &str) -> (r: Option<(usize, i64)>)
    ensures
        match r {
            Some((q, v)) => spec_digits(s@, 0) == Some((q as int, v as int)),
            None => spec_digits(s@, 0) is None,
        },
{
    let sc = Scanner::new(s);
    digits_at(&sc, 0)
}

} // verus!
