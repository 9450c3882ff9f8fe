use sockeye::proxy::proxy_scheme;
use sockeye::proxy::SupportedProtocols;
use sockeye::random_user_agent;
use sockeye::ProxyAddress;

#[test]
fn protocol_scheme_names() {
    assert_eq!(SupportedProtocols::Http.to_string(), "http");
    assert_eq!(SupportedProtocols::Socks5.to_string(), "socks5");
}

#[test]
fn scheme_strings_are_rendered_exactly() {
    assert_eq!(
        proxy_scheme(&SupportedProtocols::Socks5, &ProxyAddress::new(10, 179, 205, 104, 9050)),
        "socks5://10.179.205.104:9050"
    );
    assert_eq!(
        proxy_scheme(&SupportedProtocols::Http, &ProxyAddress::new(0, 0, 0, 0, 0)),
        "http://0.0.0.0:0"
    );
    assert_eq!(
        proxy_scheme(&SupportedProtocols::Http, &ProxyAddress::new(255, 255, 255, 255, 65535)),
        "http://255.255.255.255:65535"
    );
}

#[test]
fn random_user_agent_comes_from_the_fixed_list() {
    let agents = [
        "Mozilla/5.0 (Intel Mac OS X 0.24; rv:11.35) (KHTML, like Gecko) OPR/148.95 AppleWebKit/11.35",
        "Mozilla/4.0 (compatible; MSIE 6.0; Windows NT 5.1; SV1; .NET CLR 1.1.4322)",
        "Mozilla/5.0 (X11; Ubuntu; Linux i686; rv:24.0) Gecko/20100101 Firefox/24.0",
        "Mozilla/5.0 (Windows NT 6.1; WOW64; Trident/7.0; rv:11.0) like Gecko",
        "Mozilla/5.0 (Macintosh; Intel Mac OS X 10_15_6) AppleWebKit/605.1.15 (KHTML, like Gecko) Version/14.0.3 Safari/605.1.15",
        "Mozilla/5.0 (X11; CrOS armv7l 13099.110.0) AppleWebKit/537.36 (KHTML, like Gecko) Chrome/84.0.4147.136 Safari/537.36",
        "Mozilla/5.0 (iPhone; CPU iPhone OS 13_3_1 like Mac OS X) AppleWebKit/605.1.15 (KHTML, like Gecko) Version/13.0.5 Mobile/15E148 Snapchat/10.77.0.54 (like Safari/604.1)",
    ];
    for _ in 0..20 {
        let ua = random_user_agent();
        assert!(agents.contains(&ua.as_str()));
    }
}
