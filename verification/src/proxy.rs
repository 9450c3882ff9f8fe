//! Proxy validation: the record of one successful probe, the two supported
//! proxy protocols, and the validation orchestrator that tests every
//! discovered candidate against both protocols and ranks the successes by
//! round-trip time.

use crate::digits::append_dec;
use crate::digits::dec_digits;
use crate::rank::sort_by_rtt;
use crate::rank::sorted_by_rtt;
use crate::runner::window_bounds;
use crate::runner::DEFAULT_CONCURRENCY;
use crate::CrawlError;
use crate::ProxyAddress;
use vstd::prelude::*;
use vstd::string::StringExecFns;

verus! {

/// The closed set of proxy protocols a candidate is probed with.
#[derive(Clone, Copy, Debug, PartialEq, Eq, Structural)]
pub enum SupportedProtocols {
    Http,
    Socks5,
}

impl SupportedProtocols {
    /// The protocol's name as it appears in a proxy scheme string.
    pub open spec fn name_spec(&self) -> Seq<char> {
        match self {
            SupportedProtocols::Http => "http"@,
            SupportedProtocols::Socks5 => "socks5"@,
        }
    }

    /// The protocol's scheme name, `"http"` or `"socks5"`.
    pub fn to_string(&self) -> (r: String)
        ensures
            r@ == self.name_spec(),
    {
        match self {
            SupportedProtocols::Http => String::from_str("http"),
            SupportedProtocols::Socks5 => String::from_str("socks5"),
        }
    }
}

/// The record of one successful validation probe: which candidate was
/// tested, under which protocol, what the endpoint answered, when the probe
/// completed, and how long the round trip took. A failed probe produces no
/// record at all.
#[derive(Clone, Debug, PartialEq, Eq)]
pub struct ProxyTest {
    pub proxy: ProxyAddress,
    pub protocol: SupportedProtocols,
    /// HTTP status code of the probe response.
    pub status: u16,
    /// Body text of the probe response.
    pub text: String,
    /// Completion timestamp, in milliseconds of the probe clock.
    pub time: u64,
    /// Round-trip duration in milliseconds; the ranking order.
    pub rtt: u64,
}

/// What one HTTP exchange through a candidate proxy reported: status code,
/// body text, elapsed wall-clock time, and the completion timestamp.
#[derive(Clone, Debug)]
pub struct ProbeResponse {
    pub status: u16,
    pub body: String,
    pub elapsed_ms: u64,
    pub completed_at_ms: u64,
}

/// The network probe collaborator: performs one outbound HTTP exchange
/// routed through the given proxy scheme against `url`, with a bounded
/// timeout, and reports status, body and elapsed time. Any transport-level
/// failure is surfaced as an error, which the orchestrator absorbs as "no
/// contribution". Implementations perform real network I/O and live outside
/// the library.
pub trait ProxyProbe {
    fn fetch_through(&self, scheme: &str, url: &str) -> Result<ProbeResponse, CrawlError>;
}

/// The outcome of one probe: a record on success, a named failure otherwise.
/// Failures are absorbed at this boundary and never propagated further.
pub enum ProbeOutcome {
    Success(ProxyTest),
    Failure(String),
}

/// The entries one probe outcome contributes to the result list.
pub open spec fn outcome_entries(o: ProbeOutcome) -> Seq<ProxyTest> {
    match o {
        ProbeOutcome::Success(t) => seq![t],
        ProbeOutcome::Failure(_) => Seq::empty(),
    }
}

/// The fixed, well-known endpoint a probe targets; it echoes the caller's
/// apparent public IP address.
pub fn probe_endpoint() -> (r: &'static str)
    ensures
        r@ == "https://api.ipify.org/"@,
{
    "https://api.ipify.org/"
}

/// The proxy scheme string for probing `a` under protocol `p`:
/// `protocol://ip:port`.
pub open spec fn scheme_spec(p: SupportedProtocols, a: ProxyAddress) -> Seq<char> {
    p.name_spec() + "://"@ + dec_digits(a.a as nat) + "."@ + dec_digits(a.b as nat) + "."@
        + dec_digits(a.c as nat) + "."@ + dec_digits(a.d as nat) + ":"@ + dec_digits(
        a.port as nat,
    )
}

/// Render the proxy scheme string for one probe.
pub fn proxy_scheme(protocol: &SupportedProtocols, proxy: &ProxyAddress) -> (r: String)
    ensures
        r@ == scheme_spec(*protocol, *proxy),
{
    let mut s = protocol.to_string();
    s.append("://");
    append_dec(&mut s, proxy.a as u16);
    s.append(".");
    append_dec(&mut s, proxy.b as u16);
    s.append(".");
    append_dec(&mut s, proxy.c as u16);
    s.append(".");
    append_dec(&mut s, proxy.d as u16);
    s.append(":");
    append_dec(&mut s, proxy.port);
    proof {
        assert(s@ =~= scheme_spec(*protocol, *proxy));
    }
    s
}

/// Build the record of one successful probe from what the transport
/// reported.
pub fn make_test(proxy: ProxyAddress, protocol: SupportedProtocols, resp: ProbeResponse) -> (t:
    ProxyTest)
    ensures
        t == (ProxyTest {
            proxy,
            protocol,
            status: resp.status,
            text: resp.body,
            time: resp.completed_at_ms,
            rtt: resp.elapsed_ms,
        }),
{
    ProxyTest {
        proxy,
        protocol,
        status: resp.status,
        text: resp.body,
        time: resp.completed_at_ms,
        rtt: resp.elapsed_ms,
    }
}

/// Append the entries of one candidate's two probe outcomes, SOCKS5 first,
/// to the shared result list. Exactly the successes are appended, in
/// order; failures contribute nothing.
pub fn record_outcomes(results: &mut Vec<ProxyTest>, socks: ProbeOutcome, http: ProbeOutcome)
    ensures
        final(results)@ == old(results)@ + outcome_entries(socks) + outcome_entries(http),
{
    let ghost s_entries = outcome_entries(socks);
    let ghost h_entries = outcome_entries(http);
    match socks {
        ProbeOutcome::Success(t) => results.push(t),
        ProbeOutcome::Failure(_) => (),
    }
    match http {
        ProbeOutcome::Success(t) => results.push(t),
        ProbeOutcome::Failure(_) => (),
    }
    proof {
        assert(results@ =~= old(results)@ + s_entries + h_entries);
    }
}

/// Law (dual-protocol independence): the two probes of one candidate are
/// recorded independently. When the SOCKS5 probe fails and the HTTP probe
/// succeeds with record `t`, the result list gains exactly the one entry
/// `t` — tagged with whatever protocol `t` carries, HTTP for every record
/// the orchestrator builds from an HTTP probe.
pub proof fn lemma_dual_protocol_independence(acc: Seq<ProxyTest>, reason: String, t: ProxyTest)
    ensures
        acc + outcome_entries(ProbeOutcome::Failure(reason)) + outcome_entries(
            ProbeOutcome::Success(t),
        ) == acc.push(t),
{
    assert(acc + outcome_entries(ProbeOutcome::Failure(reason)) + outcome_entries(
        ProbeOutcome::Success(t),
    ) =~= acc.push(t));
}

/// The owned, mutable collection of successful probe records accumulated by
/// one validation run, sortable in place by round-trip time.
#[derive(Clone, Debug)]
pub struct ProxyManager {
    proxies: Vec<ProxyTest>,
}

impl View for ProxyManager {
    type V = Seq<ProxyTest>;

    closed spec fn view(&self) -> Seq<ProxyTest> {
        self.proxies@
    }
}

impl ProxyManager {
    /// An empty collection, as a validation run starts with.
    pub fn new() -> (r: ProxyManager)
        ensures
            r@ == Seq::<ProxyTest>::empty(),
    {
        ProxyManager { proxies: Vec::new() }
    }

    /// Append one externally obtained record.
    pub fn import_test(&mut self, test: ProxyTest)
        ensures
            final(self)@ == old(self)@.push(test),
    {
        self.proxies.push(test);
    }

    /// The records held so far, in insertion order.
    pub fn entries(&self) -> (r: &Vec<ProxyTest>)
        ensures
            r@ == self@,
    {
        &self.proxies
    }

    /// Probe one candidate under one protocol: build the scheme string,
    /// perform the exchange through the probe collaborator, and on success
    /// build the record from what was reported.
    pub fn test_proxy<P: ProxyProbe>(
        probe: &P,
        protocol: &SupportedProtocols,
        proxy: &ProxyAddress,
    ) -> (r: Result<ProxyTest, CrawlError>)
        ensures
            r matches Ok(t) ==> t.proxy == *proxy && t.protocol == *protocol,
    {
        let scheme = proxy_scheme(protocol, proxy);
        match probe.fetch_through(scheme.as_str(), probe_endpoint()) {
            Ok(resp) => Ok(make_test(*proxy, *protocol, resp)),
            Err(e) => Err(e),
        }
    }

    /// Probe one candidate against both protocols, SOCKS5 then HTTP. The two
    /// probes are independent: each may succeed or fail on its own, and a
    /// failure is absorbed into a named outcome rather than propagated.
    pub fn test_candidate<P: ProxyProbe>(probe: &P, proxy: &ProxyAddress) -> (r: (
        ProbeOutcome,
        ProbeOutcome,
    ))
        ensures
            r.0 matches ProbeOutcome::Success(t) ==> t.proxy == *proxy && t.protocol
                == SupportedProtocols::Socks5,
            r.1 matches ProbeOutcome::Success(t) ==> t.proxy == *proxy && t.protocol
                == SupportedProtocols::Http,
    {
        let socks = match Self::test_proxy(probe, &SupportedProtocols::Socks5, proxy) {
            Ok(t) => ProbeOutcome::Success(t),
            Err(e) => ProbeOutcome::Failure(e.message),
        };
        let http = match Self::test_proxy(probe, &SupportedProtocols::Http, proxy) {
            Ok(t) => ProbeOutcome::Success(t),
            Err(e) => ProbeOutcome::Failure(e.message),
        };
        (socks, http)
    }

    /// The validation orchestrator: test every candidate — duplicates
    /// included, no deduplication happens here — in windows of the default
    /// width, each candidate against both protocols, accumulating the
    /// successful records; then sort the accumulated records once, ascending
    /// by round-trip time, and return them. No early stop is applied: every
    /// candidate is always tested. Every returned record belongs to one of
    /// the given candidates; records with equal round-trip times may appear
    /// in any relative order.
    pub fn test_proxies<P: ProxyProbe>(probe: &P, proxies: &Vec<ProxyAddress>) -> (r: Vec<
        ProxyTest,
    >)
        ensures
            sorted_by_rtt(r@),
            forall|k: int| 0 <= k < r@.len() ==> proxies@.contains(#[trigger] r@[k].proxy),
            r@.len() <= 2 * proxies@.len(),
    {
        let mut results: Vec<ProxyTest> = Vec::new();
        let n = proxies.len();
        let mut start: usize = 0;
        while start < n
            invariant
                n == proxies@.len(),
                start <= n,
                results@.len() <= 2 * start,
                forall|k: int|
                    0 <= k < results@.len() ==> proxies@.contains(#[trigger] results@[k].proxy),
            decreases n - start,
        {
            let (lo, hi) = window_bounds(start, DEFAULT_CONCURRENCY, n);
            let mut j = lo;
            while j < hi
                invariant
                    n == proxies@.len(),
                    lo <= j <= hi <= n,
                    results@.len() <= 2 * j,
                    forall|k: int|
                        0 <= k < results@.len() ==> proxies@.contains(#[trigger] results@[k].proxy),
                decreases hi - j,
            {
                let (socks, http) = Self::test_candidate(probe, &proxies[j]);
                record_outcomes(&mut results, socks, http);
                j += 1;
            }
            start = hi;
        }
        let ghost before_sort = results@;
        let r = sort_by_rtt(results);
        proof {
            broadcast use vstd::seq_lib::group_to_multiset_ensures;

            assert(r@.to_multiset().len() == r@.len());
            assert(before_sort.to_multiset().len() == before_sort.len());
            assert(r@.len() == before_sort.len());
            assert forall|k: int| 0 <= k < r@.len() implies proxies@.contains(
                #[trigger] r@[k].proxy,
            ) by {
                broadcast use vstd::seq_lib::group_to_multiset_ensures;

                assert(r@.to_multiset().count(r@[k]) > 0);
                assert(before_sort.contains(r@[k]));
                let m = choose|m: int| 0 <= m < before_sort.len() && before_sort[m] == r@[k];
                assert(proxies@.contains(before_sort[m].proxy));
            }
        }
        r
    }
}

} // verus!
