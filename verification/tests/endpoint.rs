use zeroclaw_a2a::endpoint::is_local_or_private;

#[test]
fn local_detection_hits_loopback_v4() {
    assert!(is_local_or_private("http://127.0.0.1:8080"));
    assert!(is_local_or_private("https://127.0.0.1"));
}

#[test]
fn local_detection_hits_localhost() {
    assert!(is_local_or_private("http://localhost:42620"));
}

#[test]
fn local_detection_hits_loopback_v6() {
    assert!(is_local_or_private("http://[::1]:42620"));
}

#[test]
fn local_detection_hits_rfc1918() {
    assert!(is_local_or_private("http://10.0.0.5"));
    assert!(is_local_or_private("http://192.168.1.1"));
    assert!(is_local_or_private("http://172.16.0.1"));
    assert!(is_local_or_private("http://172.31.255.254"));
}

#[test]
fn local_detection_misses_public() {
    assert!(!is_local_or_private("https://api.anthropic.com"));
    assert!(!is_local_or_private("http://172.15.0.1")); // just outside range
    assert!(!is_local_or_private("http://172.32.0.1")); // just outside range
    assert!(!is_local_or_private("http://8.8.8.8"));
}

#[test]
fn local_detection_misses_octets_of_another_length() {
    for octet in ["", "0", "1", "2", "9", "016", "160", "172", "255", "0016"] {
        assert!(!is_local_or_private(&format!("http://172.{octet}.0.1")));
        assert!(!is_local_or_private(&format!("https://172.{octet}.0.1")));
    }
}

#[test]
fn local_detection_covers_exactly_the_172_range() {
    for octet in 0..256 {
        let inside = (16..=31).contains(&octet);
        assert_eq!(is_local_or_private(&format!("http://172.{octet}.0.1")), inside);
        assert_eq!(is_local_or_private(&format!("https://172.{octet}.0.1/x")), inside);
    }
}

#[test]
fn local_detection_ignores_capitals() {
    assert!(is_local_or_private("HTTP://LocalHost:80"));
    assert!(is_local_or_private("HTTPS://10.1.2.3"));
    assert!(!is_local_or_private("HTTP://Example.test"));
}

#[test]
fn local_detection_needs_scheme_and_dot() {
    assert!(!is_local_or_private(""));
    assert!(!is_local_or_private("127.0.0.1"));
    assert!(!is_local_or_private("http://172.16"));
    assert!(!is_local_or_private("ftp://10.0.0.1"));
    assert!(is_local_or_private("http://localhost.example.test"));
}
