use sect::server::with_default_scheme;

#[test]
fn bare_host_gets_https() {
    assert_eq!(with_default_scheme("server"), "https://server");
    assert_eq!(with_default_scheme("server/prefix"), "https://server/prefix");
}

#[test]
fn named_scheme_is_kept() {
    assert_eq!(with_default_scheme("http://plaintext"), "http://plaintext");
    assert_eq!(with_default_scheme("https://https/2025/"), "https://https/2025/");
}

#[test]
fn other_scheme_gets_https_in_front() {
    assert_eq!(with_default_scheme("ftp://x"), "https://ftp://x");
    assert_eq!(with_default_scheme("http:/x"), "https://http:/x");
    assert_eq!(with_default_scheme(""), "https://");
}
