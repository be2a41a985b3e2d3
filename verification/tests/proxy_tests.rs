use mockbox::proxy::{forwards_header, proxy_method, proxy_target, status_or_ok, upstream_url, ProxyMethod};

#[test]
fn upstream_without_scheme_gets_http() {
    assert_eq!(upstream_url("localhost:8080", "/api/users?x=1"), "http://localhost:8080/api/users?x=1");
}

#[test]
fn upstream_with_http_is_kept() {
    assert_eq!(upstream_url("http://example.com", "/a"), "http://example.com/a");
}

#[test]
fn upstream_with_https_is_kept() {
    assert_eq!(upstream_url("https://example.com", "/"), "https://example.com/");
}

#[test]
fn upstream_scheme_check_is_case_sensitive() {
    assert_eq!(upstream_url("HTTP://example.com", "/"), "http://HTTP://example.com/");
}

#[test]
fn no_upstream_means_no_target() {
    assert_eq!(proxy_target(&None, "/a"), None);
    assert_eq!(proxy_target(&Some("h:1".to_string()), "/a"), Some("http://h:1/a".to_string()));
}

#[test]
fn methods_are_mapped() {
    assert_eq!(proxy_method("GET"), ProxyMethod::Get);
    assert_eq!(proxy_method("POST"), ProxyMethod::Post);
    assert_eq!(proxy_method("PUT"), ProxyMethod::Put);
    assert_eq!(proxy_method("DELETE"), ProxyMethod::Delete);
    assert_eq!(proxy_method("HEAD"), ProxyMethod::Head);
    assert_eq!(proxy_method("OPTIONS"), ProxyMethod::Options);
    assert_eq!(proxy_method("PATCH"), ProxyMethod::Patch);
    assert_eq!(proxy_method("TRACE"), ProxyMethod::Trace);
}

#[test]
fn unknown_methods_become_get() {
    assert_eq!(proxy_method("CONNECT"), ProxyMethod::Get);
    assert_eq!(proxy_method("post"), ProxyMethod::Get);
    assert_eq!(proxy_method(""), ProxyMethod::Get);
}

#[test]
fn method_names_round_trip() {
    for m in [
        ProxyMethod::Get,
        ProxyMethod::Post,
        ProxyMethod::Put,
        ProxyMethod::Delete,
        ProxyMethod::Head,
        ProxyMethod::Options,
        ProxyMethod::Patch,
        ProxyMethod::Trace,
    ] {
        assert_eq!(proxy_method(m.as_str()), m);
    }
}

#[test]
fn hop_headers_are_not_forwarded() {
    assert!(!forwards_header("host"));
    assert!(!forwards_header("Host"));
    assert!(!forwards_header("CONNECTION"));
    assert!(forwards_header("content-type"));
    assert!(forwards_header("hosts"));
    assert!(forwards_header("x-host"));
}

#[test]
fn status_codes_are_validated() {
    assert_eq!(status_or_ok(404), 404);
    assert_eq!(status_or_ok(100), 100);
    assert_eq!(status_or_ok(999), 999);
    assert_eq!(status_or_ok(99), 200);
    assert_eq!(status_or_ok(0), 200);
    assert_eq!(status_or_ok(1000), 200);
}
