use sea_lantern::net_guard::{is_unsafe, parse_ipv4};

#[test]
fn loopback_and_private_targets_are_unsafe() {
    assert!(is_unsafe("http://127.0.0.1/"));
    assert!(is_unsafe("http://10.1.2.3/"));
    assert!(is_unsafe("http://192.168.1.1/"));
    assert!(is_unsafe("ftp://example.com/"));
    assert!(is_unsafe("http://localhost/"));
}

#[test]
fn public_http_targets_are_safe() {
    assert!(!is_unsafe("https://example.com/"));
    assert!(!is_unsafe("http://93.184.216.34/"));
    assert!(!is_unsafe("https://api.github.com/repos"));
}

#[test]
fn the_private_172_block_is_bounded() {
    assert!(is_unsafe("http://172.16.0.1/"));
    assert!(is_unsafe("http://172.31.255.255/"));
    assert!(!is_unsafe("http://172.15.0.1/"));
    assert!(!is_unsafe("http://172.32.0.1/"));
}

#[test]
fn oddities_are_unsafe() {
    assert!(is_unsafe("not a url"));
    assert!(is_unsafe("file:///etc/passwd"));
    assert!(is_unsafe("http://[::1]/"));
    assert!(is_unsafe("HTTP://LOCALHOST/"));
}

#[test]
fn ipv4_literals_parse_strictly() {
    assert_eq!(parse_ipv4("127.0.0.1"), Some((127, 0, 0, 1)));
    assert_eq!(parse_ipv4("255.255.255.255"), Some((255, 255, 255, 255)));
    assert_eq!(parse_ipv4("256.0.0.1"), None);
    assert_eq!(parse_ipv4("01.2.3.4"), None);
    assert_eq!(parse_ipv4("1.2.3"), None);
    assert_eq!(parse_ipv4("1.2.3.4.5"), None);
    assert_eq!(parse_ipv4("a.b.c.d"), None);
    assert_eq!(parse_ipv4(""), None);
    assert_eq!(parse_ipv4("1..2.3"), None);
}
