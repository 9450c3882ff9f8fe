//! Proxy-pair extraction: the two independent textual recognizers that pull
//! distinct (IPv4 address, port) pairs out of arbitrary response text.
//!
//! The first recognizer finds plain `ip:port` occurrences; the second finds
//! the two-cell tabular layout `<td>ip</td> <td>port</td>`. Both scan left
//! to right, attempt the longest digit-run match at each position, skip a
//! syntactic match whole when its octets or port are out of range, resume
//! after every match (matches never overlap), and deduplicate before
//! returning.

use crate::accum::absorb_list;
use crate::accum::lemma_absorb_dedups;
use crate::accum::push_distinct;
use crate::accum::CandidateAccumulator;
use crate::ProxyAddress;
use vstd::prelude::*;
use vstd::string::StrSliceExecFns;

verus! {

/// A decimal digit character.
pub open spec fn is_digit(c: char) -> bool {
    48 <= c as int <= 57
}

/// The numeric value of one digit character.
pub open spec fn digit_val(c: char) -> int {
    c as int - 48
}

/// The numeric value of a run of digit characters, most significant first.
pub open spec fn digits_val(s: Seq<char>) -> int
    decreases s.len(),
{
    if s.len() == 0 {
        0
    } else {
        digits_val(s.drop_last()) * 10 + digit_val(s.last())
    }
}

/// First position at or after `i` that does not hold a digit.
pub open spec fn digit_run_end(s: Seq<char>, i: int) -> int
    decreases s.len() - i,
{
    if i < 0 || i >= s.len() {
        i
    } else if is_digit(s[i]) {
        digit_run_end(s, i + 1)
    } else {
        i
    }
}

pub proof fn lemma_digit_run_end(s: Seq<char>, i: int)
    requires
        0 <= i <= s.len(),
    ensures
        i <= digit_run_end(s, i) <= s.len(),
        forall|k: int| i <= k < digit_run_end(s, i) ==> is_digit(s[k]),
        digit_run_end(s, i) < s.len() ==> !is_digit(s[digit_run_end(s, i)]),
    decreases s.len() - i,
{
    if i < s.len() && is_digit(s[i]) {
        lemma_digit_run_end(s, i + 1);
    }
}

/// Powers of ten.
pub open spec fn ten_pow(n: nat) -> int
    decreases n,
{
    if n == 0 {
        1
    } else {
        10 * ten_pow((n - 1) as nat)
    }
}

/// The first few powers of ten, by unfolding.
pub proof fn lemma_ten_pow_small()
    ensures
        ten_pow(0) == 1,
        ten_pow(1) == 10,
        ten_pow(2) == 100,
        ten_pow(3) == 1000,
        ten_pow(4) == 10000,
        ten_pow(5) == 100000,
{
    assert(ten_pow(0) == 1);
    assert(ten_pow(1) == 10);
    assert(ten_pow(2) == 100);
    assert(ten_pow(3) == 1000);
    assert(ten_pow(4) == 10000);
    assert(ten_pow(5) == 100000);
}

/// A run of `n` digit characters has a value in `[0, 10^n)`.
pub proof fn lemma_digits_val_bounds(s: Seq<char>)
    requires
        forall|k: int| 0 <= k < s.len() ==> is_digit(s[k]),
    ensures
        0 <= digits_val(s) < ten_pow(s.len()),
    decreases s.len(),
{
    if s.len() > 0 {
        lemma_digits_val_bounds(s.drop_last());
    }
}

/// Extending a digit run to the right never shrinks its value.
pub proof fn lemma_digits_val_prefix(s: Seq<char>, j: int)
    requires
        forall|k: int| 0 <= k < s.len() ==> is_digit(s[k]),
        0 <= j <= s.len(),
    ensures
        digits_val(s.subrange(0, j)) <= digits_val(s),
    decreases s.len() - j,
{
    if j < s.len() {
        lemma_digits_val_prefix(s, j + 1);
        let shorter = s.subrange(0, j);
        let longer = s.subrange(0, j + 1);
        assert(longer.drop_last() =~= shorter);
        assert(longer.last() == s[j]);
        lemma_digits_val_bounds(shorter);
    } else {
        assert(s.subrange(0, j) =~= s);
    }
}

/// A valid IPv4 octet: one to three digits, no leading zero unless the
/// octet is exactly `0`, value at most 255.
pub open spec fn octet_ok(d: Seq<char>) -> bool {
    1 <= d.len() <= 3 && (d.len() > 1 ==> d[0] != '0') && digits_val(d) <= 255
}

/// A valid port: a digit run whose value fits in 16 bits; leading zeros
/// are accepted.
pub open spec fn port_ok(d: Seq<char>) -> bool {
    d.len() >= 1 && digits_val(d) <= 65535
}

/// The shape of one plain `ip:port` occurrence starting at `i`: four digit
/// runs separated by dots, a colon, and a final digit run, each run taken
/// maximally. The result holds the ends of the five digit runs.
pub open spec fn basic_match_end(s: Seq<char>, i: int) -> Option<(int, int, int, int, int)> {
    let e1 = digit_run_end(s, i);
    if e1 == i || e1 >= s.len() || s[e1] != '.' {
        None
    } else {
        let e2 = digit_run_end(s, e1 + 1);
        if e2 == e1 + 1 || e2 >= s.len() || s[e2] != '.' {
            None
        } else {
            let e3 = digit_run_end(s, e2 + 1);
            if e3 == e2 + 1 || e3 >= s.len() || s[e3] != '.' {
                None
            } else {
                let e4 = digit_run_end(s, e3 + 1);
                if e4 == e3 + 1 || e4 >= s.len() || s[e4] != ':' {
                    None
                } else {
                    let e5 = digit_run_end(s, e4 + 1);
                    if e5 == e4 + 1 {
                        None
                    } else {
                        Some((e1, e2, e3, e4, e5))
                    }
                }
            }
        }
    }
}

/// The pair a syntactic `ip:port` match stands for, if its four octets and
/// its port are all in range; an out-of-range match stands for nothing.
pub open spec fn basic_value_at(s: Seq<char>, i: int, e: (int, int, int, int, int)) -> Option<
    ProxyAddress,
> {
    let o1 = s.subrange(i, e.0);
    let o2 = s.subrange(e.0 + 1, e.1);
    let o3 = s.subrange(e.1 + 1, e.2);
    let o4 = s.subrange(e.2 + 1, e.3);
    let pd = s.subrange(e.3 + 1, e.4);
    if octet_ok(o1) && octet_ok(o2) && octet_ok(o3) && octet_ok(o4) && port_ok(pd) {
        Some(
            ProxyAddress {
                a: digits_val(o1) as u8,
                b: digits_val(o2) as u8,
                c: digits_val(o3) as u8,
                d: digits_val(o4) as u8,
                port: digits_val(pd) as u16,
            },
        )
    } else {
        None
    }
}

/// All pairs the plain recognizer reads from `s` at position `i` onward,
/// in encounter order, repeats included. Scanning resumes after a match —
/// valid or out of range — and one position further after a mismatch.
pub open spec fn basic_pairs_from(s: Seq<char>, i: int) -> Seq<ProxyAddress>
    decreases s.len() - i,
{
    if i >= s.len() {
        Seq::empty()
    } else {
        match basic_match_end(s, i) {
            None => basic_pairs_from(s, i + 1),
            Some(e) => {
                let nxt = if i < e.4 <= s.len() {
                    e.4
                } else {
                    i + 1
                };
                match basic_value_at(s, i, e) {
                    Some(p) => seq![p] + basic_pairs_from(s, nxt),
                    None => basic_pairs_from(s, nxt),
                }
            },
        }
    }
}

/// A whitespace character as the tabular recognizer accepts it between and
/// inside table cells.
pub open spec fn is_space(c: char) -> bool {
    c == ' ' || c == '\n' || c == '\r' || c == '\t'
}

/// First position at or after `i` that does not hold whitespace.
pub open spec fn space_run_end(s: Seq<char>, i: int) -> int
    decreases s.len() - i,
{
    if i < 0 || i >= s.len() {
        i
    } else if is_space(s[i]) {
        space_run_end(s, i + 1)
    } else {
        i
    }
}

/// The literal `lit` occurs in `s` at position `i`.
pub open spec fn lit_at(s: Seq<char>, i: int, lit: Seq<char>) -> bool {
    0 <= i && i + lit.len() <= s.len() && s.subrange(i, i + lit.len()) == lit
}

/// The shape of one tabular occurrence starting at `i`: an opening cell
/// holding the four dot-separated digit runs of an address, its closing
/// tag, optional whitespace, and a second cell holding the port's digit
/// run with optional trailing whitespace. The result holds the ends of the
/// four octet runs, the bounds of the port run, and the end of the whole
/// match.
pub open spec fn html_match_end(s: Seq<char>, i: int) -> Option<
    (int, int, int, int, int, int, int),
> {
    if !lit_at(s, i, "<td>"@) {
        None
    } else {
        let c1 = i + 4;
        let e1 = digit_run_end(s, c1);
        if e1 == c1 || e1 >= s.len() || s[e1] != '.' {
            None
        } else {
            let e2 = digit_run_end(s, e1 + 1);
            if e2 == e1 + 1 || e2 >= s.len() || s[e2] != '.' {
                None
            } else {
                let e3 = digit_run_end(s, e2 + 1);
                if e3 == e2 + 1 || e3 >= s.len() || s[e3] != '.' {
                    None
                } else {
                    let e4 = digit_run_end(s, e3 + 1);
                    if e4 == e3 + 1 || !lit_at(s, e4, "</td>"@) {
                        None
                    } else {
                        let w = space_run_end(s, e4 + 5);
                        if !lit_at(s, w, "<td>"@) {
                            None
                        } else {
                            let ps = w + 4;
                            let pe = digit_run_end(s, ps);
                            if pe == ps {
                                None
                            } else {
                                let w2 = space_run_end(s, pe);
                                if !lit_at(s, w2, "</td>"@) {
                                    None
                                } else {
                                    Some((e1, e2, e3, e4, ps, pe, w2 + 5))
                                }
                            }
                        }
                    }
                }
            }
        }
    }
}

/// The pair a syntactic tabular match stands for, if its four octets and
/// its port are all in range; an out-of-range match stands for nothing.
pub open spec fn html_value_at(s: Seq<char>, i: int, e: (int, int, int, int, int, int, int)) -> Option<
    ProxyAddress,
> {
    let o1 = s.subrange(i + 4, e.0);
    let o2 = s.subrange(e.0 + 1, e.1);
    let o3 = s.subrange(e.1 + 1, e.2);
    let o4 = s.subrange(e.2 + 1, e.3);
    let pd = s.subrange(e.4, e.5);
    if octet_ok(o1) && octet_ok(o2) && octet_ok(o3) && octet_ok(o4) && port_ok(pd) {
        Some(
            ProxyAddress {
                a: digits_val(o1) as u8,
                b: digits_val(o2) as u8,
                c: digits_val(o3) as u8,
                d: digits_val(o4) as u8,
                port: digits_val(pd) as u16,
            },
        )
    } else {
        None
    }
}

/// All pairs the tabular recognizer reads from `s` at position `i` onward,
/// in encounter order, repeats included, with the same scanning policy as
/// the plain recognizer.
pub open spec fn html_pairs_from(s: Seq<char>, i: int) -> Seq<ProxyAddress>
    decreases s.len() - i,
{
    if i >= s.len() {
        Seq::empty()
    } else {
        match html_match_end(s, i) {
            None => html_pairs_from(s, i + 1),
            Some(e) => {
                let nxt = if i < e.6 <= s.len() {
                    e.6
                } else {
                    i + 1
                };
                match html_value_at(s, i, e) {
                    Some(p) => seq![p] + html_pairs_from(s, nxt),
                    None => html_pairs_from(s, nxt),
                }
            },
        }
    }
}

/// Whether `c` is a decimal digit.
fn is_digit_exec(c: char) -> (r: bool)
    ensures
        r == is_digit(c),
{
    (c as u32) >= 48 && (c as u32) <= 57
}

/// End of the maximal digit run starting at `i`.
fn run_end(cs: &Vec<char>, i: usize) -> (r: usize)
    requires
        i <= cs@.len(),
    ensures
        r == digit_run_end(cs@, i as int),
        i <= r <= cs@.len(),
        forall|k: int| i <= k < r ==> is_digit(cs@[k]),
{
    let mut j = i;
    while j < cs.len() && is_digit_exec(cs[j])
        invariant
            i <= j <= cs@.len(),
            digit_run_end(cs@, i as int) == digit_run_end(cs@, j as int),
        decreases cs@.len() - j,
    {
        j += 1;
    }
    proof {
        lemma_digit_run_end(cs@, i as int);
    }
    j
}

/// The numeric value of the digit span `[lo, hi)` of `cs`, as an IPv4
/// octet: rejected unless the span is one to three digits with no leading
/// zero and a value at most 255.
fn parse_octet(cs: &Vec<char>, lo: usize, hi: usize) -> (r: Option<u8>)
    requires
        lo < hi <= cs@.len(),
        forall|k: int| lo <= k < hi ==> is_digit(cs@[k]),
    ensures
        r is Some <==> octet_ok(cs@.subrange(lo as int, hi as int)),
        r matches Some(v) ==> v as int == digits_val(cs@.subrange(lo as int, hi as int)),
{
    let ghost d = cs@.subrange(lo as int, hi as int);
    proof {
        lemma_digits_val_bounds(d);
    }
    if hi - lo > 3 {
        return None;
    }
    if hi - lo > 1 && cs[lo] == '0' {
        return None;
    }
    let mut val: u32 = 0;
    let mut j = lo;
    while j < hi
        invariant
            lo <= j <= hi <= cs@.len(),
            hi - lo <= 3,
            forall|k: int| lo <= k < hi ==> is_digit(cs@[k]),
            val == digits_val(cs@.subrange(lo as int, j as int)),
            val < 1000,
        decreases hi - j,
    {
        let ghost pre = cs@.subrange(lo as int, j as int);
        let c = cs[j];
        proof {
            assert(cs@.subrange(lo as int, j as int + 1).drop_last() =~= pre);
            assert(cs@.subrange(lo as int, j as int + 1).last() == cs@[j as int]);
            lemma_digits_val_bounds(cs@.subrange(lo as int, j as int + 1));
            lemma_ten_pow_small();
        }
        val = val * 10 + ((c as u32) - 48);
        j += 1;
    }
    if val > 255 {
        None
    } else {
        Some(val as u8)
    }
}

/// The numeric value of the digit span `[lo, hi)` of `cs`, as a port:
/// rejected unless the value fits in 16 bits.
fn parse_port(cs: &Vec<char>, lo: usize, hi: usize) -> (r: Option<u16>)
    requires
        lo < hi <= cs@.len(),
        forall|k: int| lo <= k < hi ==> is_digit(cs@[k]),
    ensures
        r is Some <==> port_ok(cs@.subrange(lo as int, hi as int)),
        r matches Some(v) ==> v as int == digits_val(cs@.subrange(lo as int, hi as int)),
{
    let ghost d = cs@.subrange(lo as int, hi as int);
    proof {
        lemma_digits_val_bounds(d);
    }
    let mut val: u32 = 0;
    let mut j = lo;
    while j < hi
        invariant
            lo <= j <= hi <= cs@.len(),
            forall|k: int| lo <= k < hi ==> is_digit(cs@[k]),
            val == digits_val(cs@.subrange(lo as int, j as int)),
            val <= 65535,
            d == cs@.subrange(lo as int, hi as int),
        decreases hi - j,
    {
        let ghost pre = cs@.subrange(lo as int, j as int);
        let c = cs[j];
        proof {
            assert(cs@.subrange(lo as int, j as int + 1).drop_last() =~= pre);
            assert(cs@.subrange(lo as int, j as int + 1).last() == cs@[j as int]);
            lemma_digits_val_bounds(pre);
        }
        val = val * 10 + ((c as u32) - 48);
        if val > 65535 {
            proof {
                assert(cs@.subrange(lo as int, hi as int).len() == hi - lo);
                assert forall|k: int| 0 <= k < d.len() implies is_digit(d[k]) by {
                    assert(cs@.subrange(lo as int, hi as int)[k] == cs@[lo as int + k]);
                }
                assert(cs@.subrange(lo as int, j as int + 1) =~= d.subrange(
                    0,
                    j as int + 1 - lo,
                ));
                lemma_digits_val_prefix(d, j as int + 1 - lo);
            }
            return None;
        }
        j += 1;
    }
    proof {
        assert(cs@.subrange(lo as int, hi as int) =~= d);
    }
    Some(val as u16)
}

/// Attempt the plain `ip:port` recognizer at position `i`: the match's
/// pair (if its numbers are in range) and the position scanning resumes
/// from, or nothing when the shape does not occur at `i`.
fn basic_try_at(cs: &Vec<char>, i: usize) -> (r: Option<(Option<ProxyAddress>, usize)>)
    requires
        i < cs@.len(),
    ensures
        r is None <==> basic_match_end(cs@, i as int) is None,
        r matches Some(m) ==> basic_match_end(cs@, i as int) matches Some(e) && m.1 == e.4 && i
            < m.1 <= cs@.len() && m.0 == basic_value_at(cs@, i as int, e),
{
    let n = cs.len();
    let e1 = run_end(cs, i);
    if e1 == i || e1 >= n || cs[e1] != '.' {
        return None;
    }
    let e2 = run_end(cs, e1 + 1);
    if e2 == e1 + 1 || e2 >= n || cs[e2] != '.' {
        return None;
    }
    let e3 = run_end(cs, e2 + 1);
    if e3 == e2 + 1 || e3 >= n || cs[e3] != '.' {
        return None;
    }
    let e4 = run_end(cs, e3 + 1);
    if e4 == e3 + 1 || e4 >= n || cs[e4] != ':' {
        return None;
    }
    let e5 = run_end(cs, e4 + 1);
    if e5 == e4 + 1 {
        return None;
    }
    let o1 = parse_octet(cs, i, e1);
    let o2 = parse_octet(cs, e1 + 1, e2);
    let o3 = parse_octet(cs, e2 + 1, e3);
    let o4 = parse_octet(cs, e3 + 1, e4);
    let pt = parse_port(cs, e4 + 1, e5);
    let emit = match (o1, o2, o3, o4, pt) {
        (Some(a), Some(b), Some(c), Some(d), Some(port)) => Some(
            ProxyAddress { a, b, c, d, port },
        ),
        _ => None,
    };
    Some((emit, e5))
}

/// Whether `c` is recognizer whitespace.
fn is_space_exec(c: char) -> (r: bool)
    ensures
        r == is_space(c),
{
    c == ' ' || c == '\n' || c == '\r' || c == '\t'
}

/// End of the maximal whitespace run starting at `i`.
fn ws_end(cs: &Vec<char>, i: usize) -> (r: usize)
    requires
        i <= cs@.len(),
    ensures
        r == space_run_end(cs@, i as int),
        i <= r <= cs@.len(),
{
    let mut j = i;
    while j < cs.len() && is_space_exec(cs[j])
        invariant
            i <= j <= cs@.len(),
            space_run_end(cs@, i as int) == space_run_end(cs@, j as int),
        decreases cs@.len() - j,
    {
        j += 1;
    }
    j
}

/// Whether the opening cell tag occurs at `i`.
fn td_open_at(cs: &Vec<char>, i: usize) -> (r: bool)
    ensures
        r == lit_at(cs@, i as int, "<td>"@),
{
    proof {
        reveal_strlit("<td>");
    }
    if i < cs.len() && cs.len() - i >= 4 {
        let r = cs[i] == '<' && cs[i + 1] == 't' && cs[i + 2] == 'd' && cs[i + 3] == '>';
        proof {
            let sub = cs@.subrange(i as int, i as int + 4);
            assert(sub[0] == cs@[i as int] && sub[1] == cs@[i as int + 1] && sub[2] == cs@[i as int
                + 2] && sub[3] == cs@[i as int + 3]);
            if r {
                assert(sub =~= "<td>"@);
            } else {
                assert(sub != "<td>"@);
            }
        }
        r
    } else {
        false
    }
}

/// Whether the closing cell tag occurs at `i`.
fn td_close_at(cs: &Vec<char>, i: usize) -> (r: bool)
    ensures
        r == lit_at(cs@, i as int, "</td>"@),
{
    proof {
        reveal_strlit("</td>");
    }
    if i < cs.len() && cs.len() - i >= 5 {
        let r = cs[i] == '<' && cs[i + 1] == '/' && cs[i + 2] == 't' && cs[i + 3] == 'd' && cs[i
            + 4] == '>';
        proof {
            let sub = cs@.subrange(i as int, i as int + 5);
            assert(sub[0] == cs@[i as int] && sub[1] == cs@[i as int + 1] && sub[2] == cs@[i as int
                + 2] && sub[3] == cs@[i as int + 3] && sub[4] == cs@[i as int + 4]);
            if r {
                assert(sub =~= "</td>"@);
            } else {
                assert(sub != "</td>"@);
            }
        }
        r
    } else {
        false
    }
}

/// Attempt the tabular recognizer at position `i`: the match's pair (if
/// its numbers are in range) and the position scanning resumes from, or
/// nothing when the shape does not occur at `i`.
fn html_try_at(cs: &Vec<char>, i: usize) -> (r: Option<(Option<ProxyAddress>, usize)>)
    requires
        i < cs@.len(),
    ensures
        r is None <==> html_match_end(cs@, i as int) is None,
        r matches Some(m) ==> html_match_end(cs@, i as int) matches Some(e) && m.1 == e.6 && i
            < m.1 <= cs@.len() && m.0 == html_value_at(cs@, i as int, e),
{
    proof {
        reveal_strlit("<td>");
        reveal_strlit("</td>");
    }
    let n = cs.len();
    if !td_open_at(cs, i) {
        return None;
    }
    let c1 = i + 4;
    let e1 = run_end(cs, c1);
    if e1 == c1 || e1 >= n {
        return None;
    }
    if cs[e1] != '.' {
        return None;
    }
    let e2 = run_end(cs, e1 + 1);
    if e2 == e1 + 1 || e2 >= n {
        return None;
    }
    if cs[e2] != '.' {
        return None;
    }
    let e3 = run_end(cs, e2 + 1);
    if e3 == e2 + 1 || e3 >= n {
        return None;
    }
    if cs[e3] != '.' {
        return None;
    }
    let e4 = run_end(cs, e3 + 1);
    if e4 == e3 + 1 {
        return None;
    }
    if !td_close_at(cs, e4) {
        return None;
    }
    let w = ws_end(cs, e4 + 5);
    if !td_open_at(cs, w) {
        return None;
    }
    let ps = w + 4;
    let pe = run_end(cs, ps);
    if pe == ps {
        return None;
    }
    let w2 = ws_end(cs, pe);
    if !td_close_at(cs, w2) {
        return None;
    }
    let end = w2 + 5;
    let o1 = parse_octet(cs, c1, e1);
    let o2 = parse_octet(cs, e1 + 1, e2);
    let o3 = parse_octet(cs, e2 + 1, e3);
    let o4 = parse_octet(cs, e3 + 1, e4);
    let pt = parse_port(cs, ps, pe);
    let emit = match (o1, o2, o3, o4, pt) {
        (Some(a), Some(b), Some(c), Some(d), Some(port)) => Some(
            ProxyAddress { a, b, c, d, port },
        ),
        _ => None,
    };
    Some((emit, end))
}

/// Absorb everything the tabular recognizer reads from `cs` into `acc`.
fn scan_html(acc: &mut CandidateAccumulator, cs: &Vec<char>)
    requires
        old(acc).wf(),
    ensures
        final(acc)@ == absorb_list(old(acc)@, html_pairs_from(cs@, 0)),
        final(acc).wf(),
{
    let ghost start = acc@;
    let mut i: usize = 0;
    while i < cs.len()
        invariant
            acc.wf(),
            i <= cs@.len(),
            absorb_list(acc@, html_pairs_from(cs@, i as int)) == absorb_list(
                start,
                html_pairs_from(cs@, 0),
            ),
        decreases cs@.len() - i,
    {
        match html_try_at(cs, i) {
            None => {
                i += 1;
            },
            Some(m) => {
                let (emit, nxt) = m;
                let ghost pairs_here = html_pairs_from(cs@, i as int);
                let ghost rest = html_pairs_from(cs@, nxt as int);
                match emit {
                    Some(p) => {
                        proof {
                            assert(pairs_here =~= seq![p] + rest);
                            assert((seq![p] + rest)[0] == p);
                            assert((seq![p] + rest).drop_first() =~= rest);
                            assert(absorb_list(acc@, pairs_here) == absorb_list(
                                push_distinct(acc@, p),
                                rest,
                            ));
                        }
                        acc.insert(p);
                    },
                    None => {
                        proof {
                            assert(pairs_here =~= rest);
                        }
                    },
                }
                i = nxt;
            },
        }
    }
    proof {
        assert(html_pairs_from(cs@, cs@.len() as int) =~= Seq::empty());
    }
}

/// Absorb everything the plain recognizer reads from `cs` into `acc`.
fn scan_basic(acc: &mut CandidateAccumulator, cs: &Vec<char>)
    requires
        old(acc).wf(),
    ensures
        final(acc)@ == absorb_list(old(acc)@, basic_pairs_from(cs@, 0)),
        final(acc).wf(),
{
    let ghost start = acc@;
    let mut i: usize = 0;
    while i < cs.len()
        invariant
            acc.wf(),
            i <= cs@.len(),
            absorb_list(acc@, basic_pairs_from(cs@, i as int)) == absorb_list(
                start,
                basic_pairs_from(cs@, 0),
            ),
        decreases cs@.len() - i,
    {
        match basic_try_at(cs, i) {
            None => {
                i += 1;
            },
            Some(m) => {
                let (emit, nxt) = m;
                let ghost pairs_here = basic_pairs_from(cs@, i as int);
                let ghost rest = basic_pairs_from(cs@, nxt as int);
                match emit {
                    Some(p) => {
                        proof {
                            assert(pairs_here =~= seq![p] + rest);
                            assert((seq![p] + rest)[0] == p);
                            assert((seq![p] + rest).drop_first() =~= rest);
                            assert(absorb_list(acc@, pairs_here) == absorb_list(
                                push_distinct(acc@, p),
                                rest,
                            ));
                        }
                        acc.insert(p);
                    },
                    None => {
                        proof {
                            assert(pairs_here =~= rest);
                        }
                    },
                }
                i = nxt;
            },
        }
    }
    proof {
        assert(basic_pairs_from(cs@, cs@.len() as int) =~= Seq::empty());
    }
}

/// Collect the characters of `s` for index-based scanning.
fn chars_of(s: &str) -> (r: Vec<char>)
    ensures
        r@ == s@,
{
    let n = s.unicode_len();
    let mut v: Vec<char> = Vec::new();
    let mut i: usize = 0;
    while i < n
        invariant
            n == s@.len(),
            i <= n,
            v@ == s@.subrange(0, i as int),
        decreases n - i,
    {
        let c = s.get_char(i);
        v.push(c);
        proof {
            assert(v@ =~= s@.subrange(0, i as int + 1));
        }
        i += 1;
    }
    proof {
        assert(s@.subrange(0, s@.len() as int) =~= s@);
    }
    v
}

/// All distinct pairs the plain `ip:port` recognizer reads from `text`, in
/// encounter order, each exactly once.
pub fn parse_basic_proxy_pair(text: &str) -> (r: Vec<ProxyAddress>)
    ensures
        r@ == absorb_list(Seq::empty(), basic_pairs_from(text@, 0)),
        r@.no_duplicates(),
        forall|p: ProxyAddress| r@.contains(p) <==> basic_pairs_from(text@, 0).contains(p),
{
    let cs = chars_of(text);
    let mut acc = CandidateAccumulator::new();
    scan_basic(&mut acc, &cs);
    proof {
        lemma_absorb_dedups(Seq::empty(), basic_pairs_from(text@, 0));
    }
    acc.into_items()
}

/// All distinct pairs the tabular recognizer reads from `text`, in
/// encounter order, each exactly once.
pub fn parse_html_proxy_pair(text: &str) -> (r: Vec<ProxyAddress>)
    ensures
        r@ == absorb_list(Seq::empty(), html_pairs_from(text@, 0)),
        r@.no_duplicates(),
        forall|p: ProxyAddress| r@.contains(p) <==> html_pairs_from(text@, 0).contains(p),
{
    let cs = chars_of(text);
    let mut acc = CandidateAccumulator::new();
    scan_html(&mut acc, &cs);
    proof {
        lemma_absorb_dedups(Seq::empty(), html_pairs_from(text@, 0));
    }
    acc.into_items()
}

/// The set of distinct (IPv4 address, port) pairs `text` contains under
/// both recognizers combined — everything the plain recognizer reads, in
/// encounter order, then everything the tabular recognizer adds — each
/// distinct pair exactly once.
pub fn parse_proxy_pairs(text: &str) -> (r: Vec<ProxyAddress>)
    ensures
        r@ == absorb_list(
            absorb_list(Seq::empty(), basic_pairs_from(text@, 0)),
            html_pairs_from(text@, 0),
        ),
        r@.no_duplicates(),
        forall|p: ProxyAddress|
            r@.contains(p) <==> basic_pairs_from(text@, 0).contains(p) || html_pairs_from(
                text@,
                0,
            ).contains(p),
{
    let cs = chars_of(text);
    let mut acc = CandidateAccumulator::new();
    scan_basic(&mut acc, &cs);
    scan_html(&mut acc, &cs);
    proof {
        lemma_absorb_dedups(Seq::empty(), basic_pairs_from(text@, 0));
        lemma_absorb_dedups(
            absorb_list(Seq::empty(), basic_pairs_from(text@, 0)),
            html_pairs_from(text@, 0),
        );
    }
    acc.into_items()
}

} // verus!
