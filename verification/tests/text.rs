use proxy_pulse::text::{
    chars_of, parse_u16_chars, push_decimal, split_chars, text_contains, to_lowercase, trim_chars,
};

fn chars(s: &str) -> Vec<char> {
    s.chars().collect()
}

fn text(cs: &[char]) -> String {
    cs.iter().collect()
}

#[test]
fn port_parsing_agrees_with_std() {
    let inputs = [
        "", "+", "-", "0", "80", "+80", "-80", "00080", "65535", "65536", "99999", "123456789012",
        "8o", " 80", "80 ", "++1", "+-1", "1+", "٣", "１", "8080",
    ];
    for s in inputs.iter() {
        assert_eq!(parse_u16_chars(&chars(s)), s.parse::<u16>().ok(), "input {:?}", s);
    }
}

#[test]
fn port_parsing_examples() {
    assert_eq!(parse_u16_chars(&chars("3128")), Some(3128));
    assert_eq!(parse_u16_chars(&chars("+1")), Some(1));
    assert_eq!(parse_u16_chars(&chars("65536")), None);
    assert_eq!(parse_u16_chars(&chars("")), None);
    assert_eq!(parse_u16_chars(&chars("+")), None);
}

#[test]
fn trimming_agrees_with_std() {
    let inputs = [
        "", "   ", "abc", "  abc  ", "\t1.2.3.4:80\r", "\u{a0}x\u{3000}", "\u{85}a b\u{2028}",
        "\u{200b}x", "a\u{1680}", " \u{2009}inner  space\u{202f} ",
    ];
    for s in inputs.iter() {
        assert_eq!(text(&trim_chars(&chars(s))), s.trim(), "input {:?}", s);
    }
}

#[test]
fn splitting_agrees_with_std() {
    let inputs = ["", ":", "a", "a:b", "a:b:c", "::", "a::b:", "1.2.3.4:8080"];
    for s in inputs.iter() {
        let ours: Vec<String> = split_chars(&chars(s), ':').iter().map(|p| text(p)).collect();
        let theirs: Vec<String> = s.split(':').map(|p| p.to_string()).collect();
        assert_eq!(ours, theirs, "input {:?}", s);
    }
}

#[test]
fn contains_agrees_with_std() {
    let cases = [
        ("", ""), ("abc", ""), ("", "a"), ("proxies_old", "proxies_old"), ("x proxies_ol", "proxies_old"),
        ("REFERENCES proxies_old(id)", "proxies_old"), ("aab", "ab"),
    ];
    for (s, p) in cases.iter() {
        assert_eq!(text_contains(&chars(s), &chars(p)), s.contains(p), "{:?} in {:?}", p, s);
    }
}

#[test]
fn decimal_text_agrees_with_format() {
    for n in [0u16, 7, 9, 10, 80, 100, 1080, 3128, 8080, 65535].iter() {
        let mut out = chars("port=");
        push_decimal(&mut out, *n);
        assert_eq!(text(&out), format!("port={}", n));
    }
}

#[test]
fn decimal_text_parses_back() {
    for n in [0u16, 1, 42, 999, 1000, 65535].iter() {
        let mut out = Vec::new();
        push_decimal(&mut out, *n);
        assert_eq!(parse_u16_chars(&out), Some(*n));
    }
}

#[test]
fn lowercase_goes_through_std() {
    assert_eq!(to_lowercase(&chars("SOCKS5")), "socks5");
    assert_eq!(to_lowercase(&chars("ÉHTTP")), "éhttp");
    assert_eq!(chars_of("héllo"), chars("héllo"));
}
