//! The randomized identity header: every outbound request presents one
//! user-agent string drawn at random from a fixed list.

use vstd::prelude::*;
use vstd::string::StringExecFns;

verus! {

/// The fixed list of user-agent strings a request may present.
pub open spec fn user_agents() -> Seq<Seq<char>> {
    seq![
        "Mozilla/5.0 (Intel Mac OS X 0.24; rv:11.35) (KHTML, like Gecko) OPR/148.95 AppleWebKit/11.35"@,
        "Mozilla/4.0 (compatible; MSIE 6.0; Windows NT 5.1; SV1; .NET CLR 1.1.4322)"@,
        "Mozilla/5.0 (X11; Ubuntu; Linux i686; rv:24.0) Gecko/20100101 Firefox/24.0"@,
        "Mozilla/5.0 (Windows NT 6.1; WOW64; Trident/7.0; rv:11.0) like Gecko"@,
        "Mozilla/5.0 (Macintosh; Intel Mac OS X 10_15_6) AppleWebKit/605.1.15 (KHTML, like Gecko) Version/14.0.3 Safari/605.1.15"@,
        "Mozilla/5.0 (X11; CrOS armv7l 13099.110.0) AppleWebKit/537.36 (KHTML, like Gecko) Chrome/84.0.4147.136 Safari/537.36"@,
        "Mozilla/5.0 (iPhone; CPU iPhone OS 13_3_1 like Mac OS X) AppleWebKit/605.1.15 (KHTML, like Gecko) Version/13.0.5 Mobile/15E148 Snapchat/10.77.0.54 (like Safari/604.1)"@,
    ]
}

/// Relies on `rand::random_range` over `0..n`: the drawn value lies in the
/// range. Nothing else is assumed of it — it is random.
#[verifier::external_body]
fn random_below(n: usize) -> (r: usize)
    requires
        n > 0,
    ensures
        r < n,
{
    rand::random_range(0..n)
}

/// One user-agent string drawn at random from the fixed list.
pub fn random_user_agent() -> (r: String)
    ensures
        user_agents().contains(r@),
{
    let mut v: Vec<String> = Vec::new();
    v.push(
        String::from_str(
            "Mozilla/5.0 (Intel Mac OS X 0.24; rv:11.35) (KHTML, like Gecko) OPR/148.95 AppleWebKit/11.35",
        ),
    );
    v.push(
        String::from_str("Mozilla/4.0 (compatible; MSIE 6.0; Windows NT 5.1; SV1; .NET CLR 1.1.4322)"),
    );
    v.push(
        String::from_str("Mozilla/5.0 (X11; Ubuntu; Linux i686; rv:24.0) Gecko/20100101 Firefox/24.0"),
    );
    v.push(String::from_str("Mozilla/5.0 (Windows NT 6.1; WOW64; Trident/7.0; rv:11.0) like Gecko"));
    v.push(
        String::from_str(
            "Mozilla/5.0 (Macintosh; Intel Mac OS X 10_15_6) AppleWebKit/605.1.15 (KHTML, like Gecko) Version/14.0.3 Safari/605.1.15",
        ),
    );
    v.push(
        String::from_str(
            "Mozilla/5.0 (X11; CrOS armv7l 13099.110.0) AppleWebKit/537.36 (KHTML, like Gecko) Chrome/84.0.4147.136 Safari/537.36",
        ),
    );
    v.push(
        String::from_str(
            "Mozilla/5.0 (iPhone; CPU iPhone OS 13_3_1 like Mac OS X) AppleWebKit/605.1.15 (KHTML, like Gecko) Version/13.0.5 Mobile/15E148 Snapchat/10.77.0.54 (like Safari/604.1)",
        ),
    );
    let i = random_below(v.len());
    let ghost idx = i as int;
    let r = v.swap_remove(i);
    proof {
        assert(r@ == user_agents()[idx]);
        assert(user_agents().contains(r@));
    }
    r
}

} // verus!
