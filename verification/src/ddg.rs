//! Search-result parsing for the DuckDuckGo lite result markup: extract the
//! link of every result row, validate each as a URL, and — for the search
//! pipeline — keep only links whose host is a domain name outside the
//! search engine itself.

use crate::CrawlError;
use vstd::prelude::*;
use vstd::string::StrSliceExecFns;
use vstd::string::StringExecFns;

verus! {

/// The markup that opens one result link.
pub open spec fn open_lit() -> Seq<char> {
    "<a rel=\"nofollow\" href=\""@
}

/// The markup that closes one result link.
pub open spec fn close_lit() -> Seq<char> {
    "\" class='result-link'>"@
}

/// The literal `lit` occurs in `s` at position `i`.
pub open spec fn lit_at(s: Seq<char>, i: int, lit: Seq<char>) -> bool {
    0 <= i && i + lit.len() <= s.len() && s.subrange(i, i + lit.len()) == lit
}

/// The last position at or after `k`, and before the first newline at or
/// after `k`, where the closing markup occurs: link content is read
/// greedily, as much of the line as still ends in the closing markup.
pub open spec fn greedy_close(s: Seq<char>, k: int) -> Option<int>
    decreases s.len() - k,
{
    if k >= s.len() {
        None
    } else if s[k] == '\n' {
        None
    } else {
        match greedy_close(s, k + 1) {
            Some(j) => Some(j),
            None => if lit_at(s, k, close_lit()) {
                Some(k)
            } else {
                None
            },
        }
    }
}

/// The shape of one result link starting at `i`: the opening markup, a
/// non-empty stretch of the line, and the closing markup. The result holds
/// the position of the closing markup and the end of the whole match.
pub open spec fn href_match_at(s: Seq<char>, i: int) -> Option<(int, int)> {
    if !lit_at(s, i, open_lit()) {
        None
    } else {
        let c = i + open_lit().len();
        if c >= s.len() || s[c] == '\n' {
            None
        } else {
            match greedy_close(s, c + 1) {
                Some(j) => Some((j, j + close_lit().len())),
                None => None,
            }
        }
    }
}

/// Every result link `s` holds from position `i` on, in encounter order.
pub open spec fn result_hrefs_from(s: Seq<char>, i: int) -> Seq<Seq<char>>
    decreases s.len() - i,
{
    if i >= s.len() {
        Seq::empty()
    } else {
        match href_match_at(s, i) {
            None => result_hrefs_from(s, i + 1),
            Some(m) => {
                let nxt = if i < m.1 <= s.len() {
                    m.1
                } else {
                    i + 1
                };
                seq![s.subrange(i + open_lit().len(), m.0)] + result_hrefs_from(s, nxt)
            },
        }
    }
}

/// Whether the text of `s` is a well-formed URL, as the URL parser of the
/// `url` crate decides it. Uninterpreted: the trusted wrapper below relates
/// it to that parser.
pub uninterp spec fn url_parse_ok(s: Seq<char>) -> bool;

/// The domain name of the URL written `s`, when `s` is a well-formed URL
/// whose host is a domain name (rather than an IP address or nothing).
/// Uninterpreted: the trusted wrapper below relates it to the `url` crate.
pub uninterp spec fn url_domain(s: Seq<char>) -> Option<Seq<char>>;

/// Relies on `url::Url::parse` and `url::Url::domain`: both are pure
/// functions of the URL string alone. `parse` decides well-formedness;
/// `domain` yields the host name when the host is a domain name. The
/// wrapper reports `None` for an ill-formed URL, and otherwise the domain
/// name or its absence.
#[verifier::external_body]
fn url_domain_info(s: &str) -> (r: Option<Option<String>>)
    ensures
        r is Some <==> url_parse_ok(s@),
        r matches Some(d) ==> match d {
            Some(h) => url_domain(s@) == Some(h@),
            None => url_domain(s@) is None,
        },
{
    match url::Url::parse(s) {
        Ok(u) => Some(u.domain().map(|d| d.to_string())),
        Err(_) => None,
    }
}

/// The host of the search engine itself, whose own links are not results.
pub open spec fn engine_host() -> Seq<char> {
    "duckduckgo.com"@
}

/// Whether a domain name mentions the search engine's own host.
pub open spec fn mentions_engine(d: Seq<char>) -> bool {
    exists|k: int| lit_at(d, k, engine_host())
}

/// Whether the search pipeline keeps a result link: it parses as a URL
/// whose host is a domain name that does not mention the engine's own
/// host.
pub open spec fn ddg_keep(h: Seq<char>) -> bool {
    url_parse_ok(h) && match url_domain(h) {
        Some(d) => !mentions_engine(d),
        None => false,
    }
}

/// The links the search pipeline keeps, in encounter order.
pub open spec fn keep_hrefs(hs: Seq<Seq<char>>) -> Seq<Seq<char>>
    decreases hs.len(),
{
    if hs.len() == 0 {
        Seq::empty()
    } else if ddg_keep(hs.last()) {
        keep_hrefs(hs.drop_last()).push(hs.last())
    } else {
        keep_hrefs(hs.drop_last())
    }
}

/// Collect the characters of `s` for index-based scanning.
fn chars_of(s: &str) -> (r: Vec<char>)
    ensures
        r@ == s@,
{
    let n = s.unicode_len();
    let mut v: Vec<char> = Vec::new();
    let mut i: usize = 0;
    while i < n
        invariant
            n == s@.len(),
            i <= n,
            v@ == s@.subrange(0, i as int),
        decreases n - i,
    {
        let c = s.get_char(i);
        v.push(c);
        proof {
            assert(v@ =~= s@.subrange(0, i as int + 1));
        }
        i += 1;
    }
    proof {
        assert(s@.subrange(0, s@.len() as int) =~= s@);
    }
    v
}

/// Whether the literal `lit` occurs in `cs` at position `i`.
fn lit_at_exec(cs: &Vec<char>, i: usize, lit: &Vec<char>) -> (r: bool)
    ensures
        r == lit_at(cs@, i as int, lit@),
{
    if lit.len() == 0 {
        proof {
            if i <= cs@.len() {
                assert(cs@.subrange(i as int, i as int) =~= lit@);
            }
        }
        return i <= cs.len();
    }
    if cs.len() >= lit.len() && i <= cs.len() - lit.len() {
        let n = cs.len();
        let mut k: usize = 0;
        while k < lit.len()
            invariant
                k <= lit@.len(),
                i + lit@.len() <= cs@.len(),
                n == cs@.len(),
                forall|m: int| 0 <= m < k ==> cs@[i + m] == lit@[m],
            decreases lit@.len() - k,
        {
            if cs[i + k] != lit[k] {
                proof {
                    assert(cs@.subrange(i as int, i as int + lit@.len())[k as int] == cs@[i as int
                        + k]);
                }
                return false;
            }
            k += 1;
        }
        proof {
            assert(cs@.subrange(i as int, i as int + lit@.len()) =~= lit@);
        }
        true
    } else {
        false
    }
}

/// Whether the literal `lit` occurs anywhere in `cs`.
fn contains_lit_exec(cs: &Vec<char>, lit: &Vec<char>) -> (r: bool)
    requires
        lit@.len() > 0,
    ensures
        r == exists|k: int| lit_at(cs@, k, lit@),
{
    let mut k: usize = 0;
    while k < cs.len()
        invariant
            lit@.len() > 0,
            k <= cs@.len(),
            forall|m: int| 0 <= m < k ==> !lit_at(cs@, m, lit@),
        decreases cs@.len() - k,
    {
        if lit_at_exec(cs, k, lit) {
            return true;
        }
        k += 1;
    }
    proof {
        assert forall|m: int| !lit_at(cs@, m, lit@) by {
            if 0 <= m && m + lit@.len() <= cs@.len() {
                assert(m < cs@.len());
            }
        }
    }
    false
}

/// The greedy search for the closing markup: the last occurrence on the
/// current line, scanning from `from`.
fn find_close(cs: &Vec<char>, from: usize, close: &Vec<char>) -> (r: Option<usize>)
    requires
        from <= cs@.len(),
        close@ == close_lit(),
    ensures
        match r {
            Some(j) => greedy_close(cs@, from as int) == Some(j as int) && from <= j && j
                + close_lit().len() <= cs@.len(),
            None => greedy_close(cs@, from as int) is None,
        },
{
    let mut k = from;
    let mut best: Option<usize> = None;
    while k < cs.len() && cs[k] != '\n'
        invariant
            from <= k <= cs@.len(),
            close@ == close_lit(),
            match best {
                Some(b) => from <= b && b as int + close_lit().len() <= cs@.len(),
                None => true,
            },
            greedy_close(cs@, from as int) == match greedy_close(cs@, k as int) {
                Some(j) => Some(j),
                None => match best {
                    Some(b) => Some(b as int),
                    None => None::<int>,
                },
            },
        decreases cs@.len() - k,
    {
        if lit_at_exec(cs, k, close) {
            best = Some(k);
        }
        k += 1;
    }
    best
}

/// Every result link in `text`, in encounter order, as owned strings.
fn extract_hrefs(text: &str) -> (r: Vec<String>)
    ensures
        r@.len() == result_hrefs_from(text@, 0).len(),
        forall|k: int| 0 <= k < r@.len() ==> r@[k]@ == result_hrefs_from(text@, 0)[k],
{
    let cs = chars_of(text);
    let open_str = "<a rel=\"nofollow\" href=\"";
    let close_str = "\" class='result-link'>";
    let open = chars_of(open_str);
    let close = chars_of(close_str);
    let ghost hs = result_hrefs_from(text@, 0);
    let mut r: Vec<String> = Vec::new();
    let mut i: usize = 0;
    while i < cs.len()
        invariant
            cs@ == text@,
            open@ == open_lit(),
            close@ == close_lit(),
            i <= cs@.len(),
            hs == result_hrefs_from(text@, 0),
            r@.map_values(|u: String| u@) + result_hrefs_from(text@, i as int) == hs,
        decreases cs@.len() - i,
    {
        let ghost here = result_hrefs_from(text@, i as int);
        if lit_at_exec(&cs, i, &open) {
            let c = i + open.len();
            if c < cs.len() && cs[c] != '\n' {
                match find_close(&cs, c + 1, &close) {
                    Some(j) => {
                        let end = j + close.len();
                        let content = text.substring_char(c, j);
                        let owned = String::from_str(content);
                        let ghost rest = result_hrefs_from(text@, end as int);
                        let ghost rv = r@.map_values(|u: String| u@);
                        proof {
                            assert(here =~= seq![text@.subrange(c as int, j as int)] + rest);
                        }
                        r.push(owned);
                        proof {
                            assert(r@.map_values(|u: String| u@) =~= rv.push(
                                text@.subrange(c as int, j as int),
                            ));
                            assert(rv.push(text@.subrange(c as int, j as int)) + rest =~= rv
                                + here);
                        }
                        i = end;
                    },
                    None => {
                        i += 1;
                    },
                }
            } else {
                i += 1;
            }
        } else {
            i += 1;
        }
    }
    proof {
        assert(result_hrefs_from(text@, cs@.len() as int) =~= Seq::<Seq<char>>::empty());
        assert(r@.map_values(|u: String| u@) =~= hs);
    }
    r
}

/// All result links of `text`, in encounter order, each validated as a
/// well-formed URL. The first ill-formed link aborts the parse: the result
/// is the full link list exactly when every link parses.
pub fn parse_result_urls(text: &str) -> (r: Result<Vec<String>, CrawlError>)
    ensures
        r is Ok <==> (forall|k: int|
            0 <= k < result_hrefs_from(text@, 0).len() ==> url_parse_ok(
                #[trigger] result_hrefs_from(text@, 0)[k],
            )),
        r matches Ok(v) ==> v@.len() == result_hrefs_from(text@, 0).len() && forall|k: int|
            0 <= k < v@.len() ==> v@[k]@ == result_hrefs_from(text@, 0)[k],
{
    let ghost hs = result_hrefs_from(text@, 0);
    let urls = extract_hrefs(text);
    let mut t: usize = 0;
    while t < urls.len()
        invariant
            urls@.len() == hs.len(),
            hs == result_hrefs_from(text@, 0),
            forall|k: int| 0 <= k < urls@.len() ==> urls@[k]@ == hs[k],
            t <= urls@.len(),
            forall|k: int| 0 <= k < t ==> url_parse_ok(#[trigger] hs[k]),
        decreases urls@.len() - t,
    {
        match url_domain_info(urls[t].as_str()) {
            Some(_) => (),
            None => {
                proof {
                    assert(!url_parse_ok(hs[t as int]));
                }
                return Err(CrawlError { message: String::from_str("malformed result URL") });
            },
        }
        t += 1;
    }
    Ok(urls)
}

/// The result links the search pipeline hands to the crawl: every link of
/// `text`, validated — the first ill-formed link aborts with an error —
/// and filtered down to links whose host is a domain name that does not
/// mention the search engine's own host.
pub fn ddg_result_urls(text: &str) -> (r: Result<Vec<String>, CrawlError>)
    ensures
        r is Ok <==> (forall|k: int|
            0 <= k < result_hrefs_from(text@, 0).len() ==> url_parse_ok(
                #[trigger] result_hrefs_from(text@, 0)[k],
            )),
        r matches Ok(v) ==> v@.map_values(|u: String| u@) == keep_hrefs(
            result_hrefs_from(text@, 0),
        ),
{
    let ghost hs = result_hrefs_from(text@, 0);
    let urls = extract_hrefs(text);
    let host = chars_of("duckduckgo.com");
    proof {
        reveal_strlit("duckduckgo.com");
    }
    let mut kept: Vec<String> = Vec::new();
    let mut t: usize = 0;
    while t < urls.len()
        invariant
            urls@.len() == hs.len(),
            hs == result_hrefs_from(text@, 0),
            host@ == engine_host(),
            host@.len() > 0,
            forall|k: int| 0 <= k < urls@.len() ==> urls@[k]@ == hs[k],
            t <= urls@.len(),
            forall|k: int| 0 <= k < t ==> url_parse_ok(#[trigger] hs[k]),
            kept@.map_values(|u: String| u@) == keep_hrefs(hs.take(t as int)),
        decreases urls@.len() - t,
    {
        let ghost taken = hs.take(t as int);
        proof {
            assert(hs.take(t as int + 1).drop_last() =~= taken);
            assert(hs.take(t as int + 1).last() == hs[t as int]);
        }
        match url_domain_info(urls[t].as_str()) {
            Some(domain) => {
                match domain {
                    Some(host_name) => {
                        let host_chars = chars_of(host_name.as_str());
                        if !contains_lit_exec(&host_chars, &host) {
                            let ghost kv = kept@.map_values(|u: String| u@);
                            kept.push(url_clone(&urls, t));
                            proof {
                                assert(!mentions_engine(host_name@)) by {
                                    if mentions_engine(host_name@) {
                                        let k = choose|k: int|
                                            lit_at(host_name@, k, engine_host());
                                        assert(lit_at(host_chars@, k, host@));
                                    }
                                }
                                assert(ddg_keep(hs[t as int]));
                                assert(kept@.map_values(|u: String| u@) =~= kv.push(hs[t as int]));
                            }
                        } else {
                            proof {
                                let k = choose|k: int| lit_at(host_chars@, k, host@);
                                assert(lit_at(host_name@, k, engine_host()));
                                assert(mentions_engine(host_name@));
                                assert(url_domain(hs[t as int]) == Some(host_name@));
                                assert(!ddg_keep(hs[t as int]));
                            }
                        }
                    },
                    None => {
                        proof {
                            assert(!ddg_keep(hs[t as int]));
                        }
                    },
                }
            },
            None => {
                proof {
                    assert(!url_parse_ok(hs[t as int]));
                }
                return Err(CrawlError { message: String::from_str("malformed result URL") });
            },
        }
        t += 1;
    }
    proof {
        assert(hs.take(hs.len() as int) =~= hs);
    }
    Ok(kept)
}

/// An owned copy of the `t`-th string of `v`.
fn url_clone(v: &Vec<String>, t: usize) -> (r: String)
    requires
        t < v@.len(),
    ensures
        r@ == v@[t as int]@,
{
    String::from_str(v[t].as_str())
}

} // verus!
