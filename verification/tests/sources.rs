use proxy_pulse::config::ProviderConfig;
use proxy_pulse::models::proxy_address;
use proxy_pulse::sources::{
    parse_proxy_line, parse_proxy_list, plan_provider, plan_sources, split_proxy_line, ProxyLineParts, RawProxy,
    SourceLoad,
};

fn entry(ip: &str, port: u16, protocol: &str) -> (String, u16, String) {
    (ip.to_string(), port, protocol.to_string())
}

fn line(s: &str) -> Option<(String, u16, String)> {
    parse_proxy_line(s).map(|p| (p.ip, p.port, p.protocol))
}

fn list(s: &str) -> Vec<(String, u16, String)> {
    parse_proxy_list(s).into_iter().map(|p| (p.ip, p.port, p.protocol)).collect()
}

#[test]
fn line_in_ip_port_form() {
    assert_eq!(line("1.2.3.4:8080"), Some(entry("1.2.3.4", 8080, "http")));
}

#[test]
fn line_in_scheme_form() {
    assert_eq!(line("SOCKS5://10.0.0.1:1080"), Some(entry("10.0.0.1", 1080, "socks5")));
    assert_eq!(line("https://example.org:443"), Some(entry("example.org", 443, "https")));
}

#[test]
fn line_in_protocol_suffix_form() {
    assert_eq!(line("5.6.7.8:3128:HTTPS"), Some(entry("5.6.7.8", 3128, "https")));
}

#[test]
fn line_with_bad_port_is_rejected() {
    assert_eq!(line("1.2.3.4:99999"), None);
    assert_eq!(line("1.2.3.4:abc"), None);
    assert_eq!(line("1.2.3.4"), None);
    assert_eq!(line("1.2.3.4:80:http:extra"), None);
    assert_eq!(line(""), None);
}

#[test]
fn scheme_form_falls_back_to_colon_forms() {
    // The address after "://" has a bad port, so the colon forms are tried:
    // the line splits into three pieces whose middle is no port.
    assert_eq!(line("http://1.2.3.4:80x"), None);
    // "://" appears only after the port: the colon form with a protocol applies.
    assert_eq!(line("1.2.3.4:80://x"), Some(entry("1.2.3.4", 80, "//x")));
    // Scheme form whose address holds more than one ':' cannot read a port.
    assert_eq!(line("socks4://::1:1080"), None);
}

#[test]
fn plus_sign_port_is_accepted_like_std() {
    assert_eq!(line("1.2.3.4:+80"), Some(entry("1.2.3.4", 80, "http")));
}

#[test]
fn list_skips_comments_and_blank_lines() {
    let text = "# free proxies\n\n// updated daily\n  1.1.1.1:80  \r\nsocks5://2.2.2.2:1080\r\n3.3.3.3:8080:SOCKS4\nnot a proxy\n\t\n";
    assert_eq!(
        list(text),
        vec![entry("1.1.1.1", 80, "http"), entry("2.2.2.2", 1080, "socks5"), entry("3.3.3.3", 8080, "socks4")]
    );
}

#[test]
fn list_of_nothing_is_empty() {
    assert!(list("").is_empty());
    assert!(list("\n\n   \n# only a comment").is_empty());
}

#[test]
fn list_lines_are_read_on_their_own() {
    let a = "1.1.1.1:80\n#x";
    let b = "2.2.2.2:81\nbad";
    let joined = format!("{}\n{}", a, b);
    let mut expected = list(a);
    expected.extend(list(b));
    assert_eq!(list(&joined), expected);
}

#[test]
fn single_comment_line_holds_nothing() {
    assert!(list("   # 1.2.3.4:80").is_empty());
    assert!(list("//1.2.3.4:80").is_empty());
    assert_eq!(list("  9.9.9.9:9  "), vec![entry("9.9.9.9", 9, "http")]);
}

#[test]
fn address_reads_back() {
    for (ip, port) in [("1.2.3.4", 8080u16), ("example.org", 0), ("", 65535)].iter() {
        let text = proxy_address(ip, *port);
        assert_eq!(line(&text), Some(entry(ip, *port, "http")));
    }
}

#[test]
fn address_text_is_ip_colon_port() {
    assert_eq!(proxy_address("10.0.0.1", 3128), "10.0.0.1:3128");
    assert_eq!(proxy_address("h", 7), "h:7");
}

#[test]
fn scheme_line_reads_back() {
    let text = format!("{}://{}", "SOCKS5", proxy_address("4.4.4.4", 1080));
    assert_eq!(line(&text), Some(entry("4.4.4.4", 1080, "socks5")));
}

#[test]
fn protocol_suffix_line_reads_back() {
    let text = format!("{}:{}", proxy_address("4.4.4.4", 1080), "Socks4");
    assert_eq!(line(&text), Some(entry("4.4.4.4", 1080, "socks4")));
}

fn provider(kind: &str, path: Option<&str>, url: Option<&str>) -> ProviderConfig {
    ProviderConfig {
        provider_type: kind.to_string(),
        path: path.map(|p| p.to_string()),
        url: url.map(|u| u.to_string()),
    }
}

#[test]
fn file_provider_is_loaded_from_its_path() {
    match plan_provider(&provider("file", Some("lists/a.txt"), None)) {
        SourceLoad::File { path, source } => {
            assert_eq!(path, "lists/a.txt");
            assert_eq!(source, "file:lists/a.txt");
        }
        other => panic!("unexpected {:?}", other),
    }
}

#[test]
fn url_provider_is_fetched() {
    match plan_provider(&provider("url", Some("ignored"), Some("https://x.org/p.txt"))) {
        SourceLoad::Url { url, source } => {
            assert_eq!(url, "https://x.org/p.txt");
            assert_eq!(source, "url:https://x.org/p.txt");
        }
        other => panic!("unexpected {:?}", other),
    }
}

#[test]
fn provider_without_location_does_nothing() {
    assert!(matches!(plan_provider(&provider("file", None, Some("u"))), SourceLoad::NoLocation));
    assert!(matches!(plan_provider(&provider("url", Some("p"), None)), SourceLoad::NoLocation));
}

#[test]
fn unknown_provider_type_is_skipped() {
    assert!(matches!(plan_provider(&provider("ftp", Some("p"), Some("u"))), SourceLoad::UnknownType));
    assert!(matches!(plan_provider(&provider("FILE", Some("p"), None)), SourceLoad::UnknownType));
}

#[test]
fn every_provider_gets_a_plan_in_order() {
    let providers = vec![provider("url", None, Some("u1")), provider("x", None, None), provider("file", Some("f"), None)];
    let plans = plan_sources(&providers);
    assert_eq!(plans.len(), 3);
    assert!(matches!(&plans[0], SourceLoad::Url { source, .. } if source == "url:u1"));
    assert!(matches!(&plans[1], SourceLoad::UnknownType));
    assert!(matches!(&plans[2], SourceLoad::File { source, .. } if source == "file:f"));
}

#[test]
fn served_addresses_of_parsed_entries_read_back() {
    for text in ["SOCKS5://10.0.0.1:1080", "1.2.3.4:+8080", "5.6.7.8:3128:https", "x:0"].iter() {
        let p = parse_proxy_line(text).expect("entry");
        assert!(!p.ip.contains(':'));
        let served = proxy_address(&p.ip, p.port);
        assert_eq!(line(&served), Some(entry(&p.ip, p.port, "http")));
    }
}

#[test]
fn split_keeps_the_written_protocol() {
    let q = split_proxy_line("HTTPS://1.2.3.4:443").expect("parts");
    assert_eq!((q.ip.as_str(), q.port, q.protocol.as_deref()), ("1.2.3.4", 443, Some("HTTPS")));
    let q = split_proxy_line("1.2.3.4:443").expect("parts");
    assert_eq!((q.ip.as_str(), q.port, q.protocol.as_deref()), ("1.2.3.4", 443, None));
    let q = split_proxy_line("1.2.3.4:443:Socks5").expect("parts");
    assert_eq!((q.ip.as_str(), q.port, q.protocol.as_deref()), ("1.2.3.4", 443, Some("Socks5")));
    assert!(split_proxy_line("1.2.3.4:http").is_none());
}

#[test]
fn entry_of_parts_lowercases_or_defaults() {
    let p = RawProxy::from_parts(ProxyLineParts { ip: "h".to_string(), port: 1, protocol: Some("SOCKS4".to_string()) });
    assert_eq!((p.ip, p.port, p.protocol), entry("h", 1, "socks4"));
    let p = RawProxy::from_parts(ProxyLineParts { ip: "h".to_string(), port: 2, protocol: None });
    assert_eq!((p.ip, p.port, p.protocol), entry("h", 2, "http"));
}

#[test]
fn protocol_suffix_starting_with_slashes_reads_back() {
    let text = format!("{}:{}", proxy_address("7.7.7.7", 81), "//Odd");
    assert_eq!(line(&text), Some(entry("7.7.7.7", 81, "//odd")));
}
