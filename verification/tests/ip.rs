use komari_monitor::ip::extract_cloudflare_ip;

/// What the standard library gives for the same page.
fn with_std(body: &str) -> Option<String> {
    for line in body.lines() {
        if line.starts_with("ip=") {
            return Some(line.replace("ip=", ""));
        }
    }
    None
}

#[test]
fn address_is_read_from_the_trace_page() {
    let body = "fl=29f123\nh=www.cloudflare.com\nip=203.0.113.7\nts=1707955200.123\nvisit_scheme=https\n";
    assert_eq!(extract_cloudflare_ip(body), Some(String::from("203.0.113.7")));
    let body = "h=example\r\nip=2001:db8::1\r\nloc=XX\r\n";
    assert_eq!(extract_cloudflare_ip(body), Some(String::from("2001:db8::1")));
}

#[test]
fn page_without_address_gives_none() {
    assert_eq!(extract_cloudflare_ip(""), None);
    assert_eq!(extract_cloudflare_ip("\n\n"), None);
    assert_eq!(extract_cloudflare_ip("fl=1\nh=x\n"), None);
    assert_eq!(extract_cloudflare_ip(" ip=1.2.3.4\n"), None);
    assert_eq!(extract_cloudflare_ip("IP=1.2.3.4\n"), None);
    assert_eq!(extract_cloudflare_ip("ip"), None);
    assert_eq!(extract_cloudflare_ip("ip\n=1"), None);
}

#[test]
fn address_agrees_with_the_standard_library() {
    let pages = [
        "ip=", "ip=\n", "ip=1", "ip=1\r", "ip=1\r\n", "ip=1\r\r\n", "\rip=1", "\r\nip=1",
        "ip=ip=ip=1", "ip=iip=p=1", "ip=1ip", "ip=1ip=", "ip=a\nip=b", "x=1\nip=a", "x\r\nip=é𝄞 ",
        "ip==", "ip=ipip==x", "ip=i", "ip=ip", "a\r\n\r\nip=1.1.1.1\r\ny", "ip=\r", "ip=p=ip",
    ];
    for page in pages {
        assert_eq!(extract_cloudflare_ip(page), with_std(page), "{:?}", page);
    }
}
