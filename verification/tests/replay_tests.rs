use taphttp::cli::ReplayArgs;
use taphttp::replay::{apply_overrides, is_method_token, needs_tls, prepare_replay, ReplayError};
use taphttp::store::TrafficEntry;
use taphttp::textmap::TextMap;

fn captured() -> TrafficEntry {
    let mut h = TextMap::new();
    h.insert("authorization".to_string(), "Bearer old".to_string());
    h.insert("accept".to_string(), "*/*".to_string());
    TrafficEntry {
        id: "3f2a".to_string(),
        ts: "2026-07-02T14:23:01.123Z".to_string(),
        host: "example.com".to_string(),
        method: "GET".to_string(),
        url: "https://example.com/api/users".to_string(),
        req_headers: h,
        req_body: None,
        status: Some(200),
        res_headers: TextMap::new(),
        res_body: Some("{\"users\":[]}".to_string()),
        duration_ms: Some(183),
    }
}

fn args(method: Option<&str>, headers: &[&str], body: Option<&str>) -> ReplayArgs {
    ReplayArgs {
        id: "3f2a".to_string(),
        method: method.map(|s| s.to_string()),
        headers: headers.iter().map(|s| s.to_string()).collect(),
        body: body.map(|s| s.to_string()),
    }
}

#[test]
fn overrides_replace_method_headers_and_body() {
    let e = match apply_overrides(
        captured(),
        &args(Some("post"), &["Authorization: Bearer newtoken", " x-extra :  1 "], Some("{\"key\":\"val\"}")),
    ) {
        Ok(e) => e,
        Err(_) => panic!("overrides should apply"),
    };
    assert_eq!(e.method, "POST");
    assert_eq!(e.req_headers.get("Authorization"), Some(&"Bearer newtoken".to_string()));
    assert_eq!(e.req_headers.get("authorization"), None);
    assert_eq!(e.req_headers.get("accept"), Some(&"*/*".to_string()));
    assert_eq!(e.req_headers.get("x-extra"), Some(&"1".to_string()));
    assert_eq!(e.req_body, Some("{\"key\":\"val\"}".to_string()));
    assert_eq!(e.url, "https://example.com/api/users");
    assert_eq!(e.status, Some(200));
}

#[test]
fn later_header_override_wins_and_value_keeps_colons() {
    let e = match apply_overrides(captured(), &args(None, &["accept:text/html", "accept: a:b"], None)) {
        Ok(e) => e,
        Err(_) => panic!("overrides should apply"),
    };
    assert_eq!(e.req_headers.get("accept"), Some(&"a:b".to_string()));
    assert_eq!(e.req_headers.len(), 2);
    assert_eq!(e.method, "GET");
    assert_eq!(e.req_body, None);
}

#[test]
fn header_without_colon_is_refused() {
    let r = apply_overrides(captured(), &args(None, &["accept:text/html", "no-colon"], None));
    assert!(matches!(r, Err(ReplayError::MalformedHeader)));
}

#[test]
fn tls_only_for_https() {
    assert!(needs_tls(Some("https")));
    assert!(!needs_tls(Some("http")));
    assert!(!needs_tls(None));
    assert!(!needs_tls(Some("HTTPS")));
}

#[test]
fn method_tokens_agree_with_hyper() {
    for m in ["GET", "POST", "PURGE", "M-SEARCH", "x!#$%&'*+-.^_`|~9", "", "GE T", "GET\n", "G\u{e9}T", "(GET)", "a/b"] {
        assert_eq!(is_method_token(m), hyper::Method::from_bytes(m.as_bytes()).is_ok(), "{m:?}");
    }
    let long = "A".repeat(40);
    assert_eq!(is_method_token(&long), hyper::Method::from_bytes(long.as_bytes()).is_ok());
}

#[test]
fn prepared_replay_checks_method_then_url() {
    assert!(prepare_replay(captured(), &args(Some("post"), &["a:b"], None)).is_ok());
    assert!(matches!(
        prepare_replay(captured(), &args(Some("BAD METHOD"), &["no-colon"], None)),
        Err(ReplayError::MalformedHeader)
    ));
    assert!(matches!(
        prepare_replay(captured(), &args(Some("bad method"), &[], None)),
        Err(ReplayError::InvalidMethod)
    ));
    let mut e = captured();
    e.url = "http://exa mple.com/".to_string();
    assert!(matches!(prepare_replay(e, &args(None, &[], None)), Err(ReplayError::InvalidUrl)));
}

#[test]
fn override_replaces_header_of_any_case() {
    let e = match apply_overrides(captured(), &args(None, &["ACCEPT: text/html", "X-New: 1", "x-new: 2"], None)) {
        Ok(e) => e,
        Err(_) => panic!("overrides should apply"),
    };
    assert_eq!(e.req_headers.get("ACCEPT"), Some(&"text/html".to_string()));
    assert_eq!(e.req_headers.get("accept"), None);
    assert_eq!(e.req_headers.get("x-new"), Some(&"2".to_string()));
    assert_eq!(e.req_headers.get("X-New"), None);
    assert_eq!(e.req_headers.len(), 3);
}
