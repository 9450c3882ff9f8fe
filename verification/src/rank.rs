//! Ranking of successful probe records: the terminal policy of the
//! validation pipeline sorts all accumulated records ascending by their
//! round-trip duration.

use crate::proxy::ProxyTest;
use vstd::prelude::*;

verus! {

/// Ascending order by round-trip duration. Status, body and timestamp play
/// no part in the order, so records with equal round-trip times may stand
/// in any relative order.
pub open spec fn sorted_by_rtt(s: Seq<ProxyTest>) -> bool {
    forall|i: int, j: int| 0 <= i < j < s.len() ==> s[i].rtt <= s[j].rtt
}

/// Inserting an element anywhere into a sequence inserts it, and nothing
/// else, into the sequence's multiset.
proof fn lemma_insert_to_multiset(s: Seq<ProxyTest>, p: int, x: ProxyTest)
    requires
        0 <= p <= s.len(),
    ensures
        s.insert(p, x).to_multiset() == s.to_multiset().insert(x),
{
    broadcast use vstd::seq_lib::group_to_multiset_ensures;
    broadcast use vstd::multiset::group_multiset_axioms;

    let t = s.insert(p, x);
    s.insert_ensures(p, x);
    t.remove_ensures(p);
    assert(t[p] == x);
    assert(t.remove(p) =~= s);
    assert(s.to_multiset() == t.to_multiset().remove(x));
    assert(t.contains(x)) by {
        assert(t[p] == x);
    }
    assert(t.to_multiset().count(x) > 0);
    assert forall|y: ProxyTest| t.to_multiset().count(y) == s.to_multiset().insert(x).count(
        y,
    ) by {
        if y == x {
            assert(s.to_multiset().count(x) == t.to_multiset().count(x) - 1);
        } else {
            assert(s.to_multiset().count(y) == t.to_multiset().count(y));
        }
    }
    assert(t.to_multiset() =~= s.to_multiset().insert(x));
}

/// The position where a record with round-trip time `rtt` belongs in the
/// sorted list `out`: after every record at most as slow, before every
/// strictly slower one.
fn insert_pos(out: &Vec<ProxyTest>, rtt: u64) -> (p: usize)
    requires
        sorted_by_rtt(out@),
    ensures
        p <= out@.len(),
        forall|k: int| 0 <= k < p ==> out@[k].rtt <= rtt,
        forall|k: int| p <= k < out@.len() ==> out@[k].rtt > rtt,
{
    let mut p: usize = 0;
    while p < out.len() && out[p].rtt <= rtt
        invariant
            p <= out@.len(),
            forall|k: int| 0 <= k < p ==> out@[k].rtt <= rtt,
            sorted_by_rtt(out@),
        decreases out@.len() - p,
    {
        p += 1;
    }
    p
}

/// Sort probe records ascending by round-trip duration. The result holds
/// exactly the given records — the same multiset, nothing dropped, nothing
/// invented; records with equal round-trip times may appear in any relative
/// order, as the order ignores every other attribute.
pub fn sort_by_rtt(v: Vec<ProxyTest>) -> (r: Vec<ProxyTest>)
    ensures
        sorted_by_rtt(r@),
        r@.to_multiset() == v@.to_multiset(),
{
    broadcast use vstd::seq_lib::group_to_multiset_ensures;
    broadcast use vstd::multiset::group_multiset_axioms;

    let mut input = v;
    let mut out: Vec<ProxyTest> = Vec::new();
    proof {
        assert(out@.to_multiset().add(input@.to_multiset()) =~= v@.to_multiset());
    }
    while input.len() > 0
        invariant
            sorted_by_rtt(out@),
            out@.to_multiset().add(input@.to_multiset()) == v@.to_multiset(),
        decreases input.len(),
    {
        let ghost input_before = input@;
        let ghost out_before = out@;
        let x = match input.pop() {
            Some(x) => x,
            None => {
                proof {
                    assert(false);
                }
                unreached()
            },
        };
        proof {
            assert(input_before =~= input@.push(x));
            input@.to_multiset_ensures();
            assert(input@.push(x).to_multiset() =~= input@.to_multiset().insert(x));
            assert(input_before.to_multiset() == input@.to_multiset().insert(x));
        }
        let p = insert_pos(&out, x.rtt);
        out.insert(p, x);
        proof {
            lemma_insert_to_multiset(out_before, p as int, x);
            assert(out@.to_multiset().add(input@.to_multiset()) =~= v@.to_multiset());
            out_before.insert_ensures(p as int, x);
            assert forall|i: int, j: int| 0 <= i < j < out@.len() implies out@[i].rtt
                <= out@[j].rtt by {
                if i < p && j > p {
                    assert(out@[i] == out_before[i]);
                    assert(out@[j] == out_before[j - 1]);
                }
            }
        }
    }
    proof {
        assert forall|y: ProxyTest| input@.to_multiset().count(y) == 0 by {
            assert(!input@.contains(y));
        }
        assert(out@.to_multiset() =~= v@.to_multiset());
    }
    out
}

} // verus!
