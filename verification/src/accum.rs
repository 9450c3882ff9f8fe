//! The candidate accumulator of the discovery pipeline.
//!
//! One crawl owns a single deduplicating set of candidate proxy addresses.
//! Concurrent scrape tasks hand their per-page results to it one at a time;
//! a failed scrape contributes nothing, and a pair that is already held is
//! dropped, so the accumulator holds each distinct pair at most once.

use crate::ProxyAddress;
use vstd::prelude::*;

verus! {

/// What one scrape attempt contributed: the pairs extracted from one page,
/// or a named failure. Failures are absorbed at this boundary — they are
/// never propagated past the runner — so a failed item simply contributes
/// nothing to the accumulator.
pub enum ScrapeOutcome {
    Success(Vec<ProxyAddress>),
    Failure(String),
}

/// One insertion into a deduplicating accumulator: a pair already held is
/// dropped, a new pair is appended.
pub open spec fn push_distinct(acc: Seq<ProxyAddress>, p: ProxyAddress) -> Seq<ProxyAddress> {
    if acc.contains(p) {
        acc
    } else {
        acc.push(p)
    }
}

/// Absorb a list of extracted pairs, left to right, deduplicating.
pub open spec fn absorb_list(acc: Seq<ProxyAddress>, ps: Seq<ProxyAddress>) -> Seq<ProxyAddress>
    decreases ps.len(),
{
    if ps.len() == 0 {
        acc
    } else {
        absorb_list(push_distinct(acc, ps[0]), ps.drop_first())
    }
}

/// Absorb what one scrape attempt contributed.
pub open spec fn absorb_outcome(acc: Seq<ProxyAddress>, o: ScrapeOutcome) -> Seq<ProxyAddress> {
    match o {
        ScrapeOutcome::Success(ps) => absorb_list(acc, ps@),
        ScrapeOutcome::Failure(_) => acc,
    }
}

/// Absorb a whole run's scrape outcomes, in completion order.
pub open spec fn absorb_outcomes(acc: Seq<ProxyAddress>, os: Seq<ScrapeOutcome>) -> Seq<
    ProxyAddress,
>
    decreases os.len(),
{
    if os.len() == 0 {
        acc
    } else {
        absorb_outcome(absorb_outcomes(acc, os.drop_last()), os.last())
    }
}

/// The subsequence of outcomes that succeeded, in order.
pub open spec fn successes_of(os: Seq<ScrapeOutcome>) -> Seq<ScrapeOutcome>
    decreases os.len(),
{
    if os.len() == 0 {
        Seq::empty()
    } else if os.last() is Success {
        successes_of(os.drop_last()).push(os.last())
    } else {
        successes_of(os.drop_last())
    }
}

/// Law (deduplication): absorbing any list of extracted pairs — repeats
/// included — into a duplicate-free accumulator leaves it duplicate-free,
/// and it then holds a pair if and only if it already held it or the list
/// contains it; so each distinct extracted pair is held exactly once.
pub proof fn lemma_absorb_dedups(acc: Seq<ProxyAddress>, ps: Seq<ProxyAddress>)
    requires
        acc.no_duplicates(),
    ensures
        absorb_list(acc, ps).no_duplicates(),
        forall|p: ProxyAddress|
            absorb_list(acc, ps).contains(p) <==> acc.contains(p) || ps.contains(p),
    decreases ps.len(),
{
    if ps.len() == 0 {
    } else {
        let p0 = ps[0];
        let acc1 = push_distinct(acc, p0);
        let rest = ps.drop_first();
        assert(acc1.no_duplicates()) by {
            if !acc.contains(p0) {
                assert forall|i: int, j: int| 0 <= i < j < acc1.len() implies acc1[i]
                    != acc1[j] by {
                    if j < acc.len() {
                    } else {
                        assert(acc1[j] == p0);
                        assert(acc[i] == acc1[i]);
                    }
                }
            }
        }
        lemma_absorb_dedups(acc1, rest);
        assert forall|p: ProxyAddress|
            absorb_list(acc, ps).contains(p) <==> acc.contains(p) || ps.contains(p) by {
            assert(acc1.contains(p) <==> acc.contains(p) || p == p0) by {
                if p == p0 && !acc.contains(p0) {
                    assert(acc1[acc.len() as int] == p0);
                }
                if acc.contains(p) {
                    let m = choose|m: int| 0 <= m < acc.len() && acc[m] == p;
                    assert(acc1[m] == p);
                }
                if acc1.contains(p) && !acc.contains(p) {
                    let k = choose|k: int| 0 <= k < acc1.len() && acc1[k] == p;
                    if k < acc.len() {
                        assert(acc[k] == p);
                    } else {
                        assert(acc1[k] == p0);
                    }
                }
            }
            assert(ps.contains(p) <==> p == p0 || rest.contains(p)) by {
                if ps.contains(p) {
                    let i = choose|i: int| 0 <= i < ps.len() && ps[i] == p;
                    if i > 0 {
                        assert(rest[i - 1] == p);
                    }
                }
                if p == p0 {
                    assert(ps[0] == p);
                }
                if rest.contains(p) {
                    let j = choose|j: int| 0 <= j < rest.len() && rest[j] == p;
                    assert(ps[j + 1] == p);
                }
            }
        }
    }
}

/// Law (failure isolation): a run's accumulator is exactly what the
/// succeeding items contribute; failed items contribute nothing, and in
/// particular never corrupt or remove what succeeding items contributed.
pub proof fn lemma_failure_isolation(acc: Seq<ProxyAddress>, os: Seq<ScrapeOutcome>)
    ensures
        absorb_outcomes(acc, os) == absorb_outcomes(acc, successes_of(os)),
    decreases os.len(),
{
    if os.len() == 0 {
    } else {
        lemma_failure_isolation(acc, os.drop_last());
        if os.last() is Success {
            let ss = successes_of(os);
            assert(ss.drop_last() =~= successes_of(os.drop_last()));
            assert(ss.last() == os.last());
            assert(ss.len() > 0);
        }
    }
}

/// The deduplicating set of candidate proxy addresses owned by one discovery
/// run. Entries are only ever added, never removed, and never added twice.
pub struct CandidateAccumulator {
    items: Vec<ProxyAddress>,
}

impl View for CandidateAccumulator {
    type V = Seq<ProxyAddress>;

    closed spec fn view(&self) -> Seq<ProxyAddress> {
        self.items@
    }
}

impl CandidateAccumulator {
    /// The accumulator's invariant: no candidate is held twice.
    pub open spec fn wf(&self) -> bool {
        self@.no_duplicates()
    }

    /// A fresh, empty accumulator.
    pub fn new() -> (r: CandidateAccumulator)
        ensures
            r@ == Seq::<ProxyAddress>::empty(),
            r.wf(),
    {
        CandidateAccumulator { items: Vec::new() }
    }

    /// Number of candidates held so far; the stop predicate reads this.
    pub fn len(&self) -> (r: usize)
        ensures
            r == self@.len(),
    {
        self.items.len()
    }

    /// Whether `p` is already held.
    pub fn holds(&self, p: ProxyAddress) -> (r: bool)
        ensures
            r == self@.contains(p),
    {
        let mut j: usize = 0;
        while j < self.items.len()
            invariant
                j <= self.items.len(),
                forall|k: int| 0 <= k < j ==> self.items@[k] != p,
            decreases self.items.len() - j,
        {
            if self.items[j] == p {
                return true;
            }
            j += 1;
        }
        false
    }

    /// Insert one candidate, deduplicating: a pair already held is dropped.
    pub fn insert(&mut self, p: ProxyAddress)
        requires
            old(self).wf(),
        ensures
            final(self)@ == push_distinct(old(self)@, p),
            final(self).wf(),
    {
        if !self.holds(p) {
            self.items.push(p);
        }
    }

    /// Absorb the pairs extracted from one page, left to right.
    pub fn absorb(&mut self, ps: &Vec<ProxyAddress>)
        requires
            old(self).wf(),
        ensures
            final(self)@ == absorb_list(old(self)@, ps@),
            final(self).wf(),
    {
        let ghost all = ps@;
        let ghost start = self@;
        proof {
            assert(all.skip(0) =~= all);
        }
        let mut j: usize = 0;
        while j < ps.len()
            invariant
                j <= ps.len(),
                ps@ == all,
                self.wf(),
                absorb_list(self@, all.skip(j as int)) == absorb_list(start, all),
            decreases ps.len() - j,
        {
            proof {
                let rest = all.skip(j as int);
                assert(rest[0] == all[j as int]);
                assert(rest.drop_first() =~= all.skip(j as int + 1));
            }
            self.insert(ps[j]);
            j += 1;
        }
        assert(all.skip(ps.len() as int) =~= Seq::empty());
    }

    /// Absorb what one scrape attempt contributed: the extracted pairs on
    /// success, nothing on failure.
    pub fn absorb_scrape(&mut self, o: &ScrapeOutcome)
        requires
            old(self).wf(),
        ensures
            final(self)@ == absorb_outcome(old(self)@, *o),
            final(self).wf(),
    {
        match o {
            ScrapeOutcome::Success(ps) => self.absorb(ps),
            ScrapeOutcome::Failure(_) => (),
        }
    }

    /// Hand the accumulated candidates out as a plain list, in insertion
    /// order; the crawl is over once this is called.
    pub fn into_items(self) -> (r: Vec<ProxyAddress>)
        ensures
            r@ == self@,
    {
        self.items
    }
}

} // verus!
