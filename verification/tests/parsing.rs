use sockeye::ddg::ddg_result_urls;
use sockeye::ddg::parse_result_urls;
use sockeye::extract::parse_basic_proxy_pair;
use sockeye::extract::parse_html_proxy_pair;
use sockeye::extract::parse_proxy_pairs;
use sockeye::ProxyAddress;

#[test]
fn test_parse_basic_proxy_pair() {
    let test_string = r#"127.0.0.1:8080
        192.168.1.1:1234"#;
    assert_eq!(
        parse_basic_proxy_pair(test_string),
        [
            ProxyAddress::new(127, 0, 0, 1, 8080),
            ProxyAddress::new(192, 168, 1, 1, 1234)
        ]
    );
}

#[test]
fn test_parse_proxy_pairs() {
    assert_eq!(
        parse_proxy_pairs("127.0.0.1:8080 and 192.168.1.1:5554"),
        [
            ProxyAddress::new(127, 0, 0, 1, 8080),
            ProxyAddress::new(192, 168, 1, 1, 5554)
        ]
    );
    assert_eq!(
        parse_proxy_pairs(
            r#"<td>127.0.0.1</td>
            <td>8080</td>
            <td>95.104.54.227</td>
            <td>42119</td>
            "#
        ),
        [
            ProxyAddress::new(127, 0, 0, 1, 8080),
            ProxyAddress::new(95, 104, 54, 227, 42119)
        ]
    );
}

#[test]
fn test_parse_result_urls() {
    let html = r#"
 <tr>
    <td valign="top">4.&nbsp;</td>
    <td>
        <a rel="nofollow" href="https://dfir.gov/2010/03/how-to-find-cheese-diy.html" class='result-link'>Free Horse List - HorseScan</a>
    </td>
  </tr>

  <tr>
    <td>&nbsp;&nbsp;&nbsp;</td>
    <td class='result-snippet'>
      <b>Free</b> <b>Horse</b> <b>List</b>. All the horses are subjected to a detailed check(every 10 minutes) before coming to the <b>list</b>. Each <b>horse</b> is controlled by the parameter set
    </td>
  </tr>

  <tr>
    <td>&nbsp;&nbsp;&nbsp;</td>
    <td>
      <span class='link-text'>www.HorseScan.net</span>
    </td>
  </tr>
  "#;

    let urls = parse_result_urls(html).unwrap();
    assert_eq!(
        urls,
        ["https://dfir.gov/2010/03/how-to-find-cheese-diy.html".to_string()]
    );
}

#[test]
fn test_parse_html_proxy_pair_alone() {
    let text = "<td>10.0.0.2</td><td>3128</td>";
    assert_eq!(
        parse_html_proxy_pair(text),
        [ProxyAddress::new(10, 0, 0, 2, 3128)]
    );
    assert_eq!(parse_basic_proxy_pair(text), []);
}

#[test]
fn test_parse_deduplicates_repeats() {
    let text = "1.2.3.4:80 then 1.2.3.4:80 then 1.2.3.4:81";
    assert_eq!(
        parse_basic_proxy_pair(text),
        [ProxyAddress::new(1, 2, 3, 4, 80), ProxyAddress::new(1, 2, 3, 4, 81)]
    );
}

#[test]
fn test_parse_deduplicates_across_recognizers() {
    let text = "9.9.9.9:53 <td>9.9.9.9</td><td>53</td>";
    assert_eq!(parse_proxy_pairs(text), [ProxyAddress::new(9, 9, 9, 9, 53)]);
}

#[test]
fn test_parse_rejects_out_of_range() {
    // Octet over 255, octet with a leading zero, port over 65535.
    assert_eq!(parse_basic_proxy_pair("999.1.2.3:80"), []);
    assert_eq!(parse_basic_proxy_pair("01.2.3.4:80"), []);
    assert_eq!(parse_basic_proxy_pair("1.2.3.4:70000"), []);
    // A port with leading zeros is accepted.
    assert_eq!(
        parse_basic_proxy_pair("1.2.3.4:080"),
        [ProxyAddress::new(1, 2, 3, 4, 80)]
    );
}

#[test]
fn test_parse_empty_text() {
    assert_eq!(parse_proxy_pairs(""), []);
}

#[test]
fn test_parse_result_urls_rejects_malformed() {
    let html = r#"<a rel="nofollow" href="not a url at all" class='result-link'>x</a>"#;
    assert!(parse_result_urls(html).is_err());
}

#[test]
fn test_ddg_result_urls_filters_engine_links() {
    let html = r#"<a rel="nofollow" href="https://duckduckgo.com/about" class='result-link'>engine</a>
<a rel="nofollow" href="https://proxies.example.org/list" class='result-link'>list</a>
<a rel="nofollow" href="https://127.0.0.1/x" class='result-link'>ip host</a>"#;
    let urls = ddg_result_urls(html).unwrap();
    assert_eq!(urls, ["https://proxies.example.org/list".to_string()]);
}
