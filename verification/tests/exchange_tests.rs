use taphttp::exchange::{
    collect_headers, forwarded_headers, header_value_text, host_of_authority,
    is_tunnel_request, maybe_utf8, mitm_url, record_exchange, should_capture, CapturedRequest,
    UpstreamReply,
};

#[test]
fn header_values_that_are_not_visible_ascii_become_empty() {
    assert_eq!(header_value_text(b"text/html; charset=utf-8"), "text/html; charset=utf-8");
    assert_eq!(header_value_text(b"a\tb"), "a\tb");
    assert_eq!(header_value_text(b""), "");
    assert_eq!(header_value_text("caf\u{e9}".as_bytes()), "");
    assert_eq!(header_value_text(b"bad\x7f"), "");
}

#[test]
fn collected_headers_keep_last_value() {
    let m = collect_headers(vec![
        ("set-cookie".to_string(), b"a=1".to_vec()),
        ("accept".to_string(), b"*/*".to_vec()),
        ("set-cookie".to_string(), b"b=2".to_vec()),
    ]);
    assert_eq!(m.len(), 2);
    assert_eq!(m.get("set-cookie"), Some(&"b=2".to_string()));
    assert_eq!(m.get("accept"), Some(&"*/*".to_string()));
}

#[test]
fn host_and_proxy_connection_are_not_forwarded() {
    let kept = forwarded_headers(vec![
        ("host".to_string(), 1),
        ("accept".to_string(), 2),
        ("proxy-connection".to_string(), 3),
        ("user-agent".to_string(), 4),
        ("hosts".to_string(), 5),
    ]);
    assert_eq!(kept, vec![("accept".to_string(), 2), ("user-agent".to_string(), 4), ("hosts".to_string(), 5)]);
}

#[test]
fn authority_host_drops_port() {
    assert_eq!(host_of_authority("example.com:443"), "example.com");
    assert_eq!(host_of_authority("example.com"), "example.com");
    assert_eq!(host_of_authority("[::1]:8443"), "[::1]");
    assert_eq!(host_of_authority(""), "");
}

#[test]
fn connect_is_a_tunnel() {
    assert!(is_tunnel_request("CONNECT"));
    assert!(!is_tunnel_request("GET"));
    assert!(!is_tunnel_request("connect"));
}

#[test]
fn tunnel_urls() {
    assert_eq!(mitm_url("example.com:443", Some("/api/users")), "https://example.com/api/users");
    assert_eq!(mitm_url("example.com:443", None), "https://example.com/");
    assert_eq!(mitm_url("example.com:8443", Some("/x?y=1")), "https://example.com:8443/x?y=1");
    assert_eq!(mitm_url("[::1]:443", Some("/")), "https://[::1]/");
    assert_eq!(mitm_url("example.com", Some("/")), "https://example.com/");
}

#[test]
fn capture_filter() {
    assert!(should_capture("api.example.com", &None));
    assert!(should_capture("api.example.com", &Some("example".to_string())));
    assert!(!should_capture("api.example.com", &Some("Example".to_string())));
    assert!(!should_capture("other.org", &Some("example".to_string())));
}

#[test]
fn bodies() {
    assert_eq!(maybe_utf8(b""), None);
    assert_eq!(maybe_utf8(b"{\"users\":[]}"), Some("{\"users\":[]}".to_string()));
    assert_eq!(maybe_utf8(b"a\xffb"), Some("a\u{fffd}b".to_string()));
}

fn request() -> CapturedRequest {
    CapturedRequest {
        host: "example.com".to_string(),
        method: "POST".to_string(),
        url: "https://example.com/api".to_string(),
        headers: vec![("accept".to_string(), b"*/*".to_vec())],
        body: b"{\"key\":\"val\"}".to_vec(),
    }
}

#[test]
fn answered_exchange_is_recorded_and_forwarded() {
    let reply = UpstreamReply::Answered {
        status: 201,
        headers: vec![("content-type".to_string(), b"application/json".to_vec())],
        body: b"{}".to_vec(),
    };
    let (e, resp) = record_exchange("id-1".to_string(), "2026-01-01T00:00:00Z".to_string(), request(), reply, 42);
    assert_eq!(e.id, "id-1");
    assert_eq!(e.ts, "2026-01-01T00:00:00Z");
    assert_eq!(e.host, "example.com");
    assert_eq!(e.method, "POST");
    assert_eq!(e.url, "https://example.com/api");
    assert_eq!(e.req_headers.get("accept"), Some(&"*/*".to_string()));
    assert_eq!(e.req_body, Some("{\"key\":\"val\"}".to_string()));
    assert_eq!(e.status, Some(201));
    assert_eq!(e.res_headers.get("content-type"), Some(&"application/json".to_string()));
    assert_eq!(e.res_body, Some("{}".to_string()));
    assert_eq!(e.duration_ms, Some(42));
    assert_eq!(resp.status, 201);
    assert_eq!(resp.body, b"{}".to_vec());
}

#[test]
fn failed_exchange_answers_502() {
    let (e, resp) = record_exchange("id".to_string(), "t".to_string(), request(), UpstreamReply::Failed, 7);
    assert_eq!(e.status, None);
    assert_eq!(e.res_headers.len(), 0);
    assert_eq!(e.res_body, None);
    assert_eq!(resp.status, 502);
    assert!(resp.body.is_empty());
}

