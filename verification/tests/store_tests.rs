use taphttp::cli::LogsArgs;
use taphttp::store::{
    find_entry, record_line, records_of, render_row, render_table, select_entries,
    JsonLinesBackend, TrafficEntry,
};
use taphttp::textmap::TextMap;

fn entry(id: &str, host: &str, method: &str, status: Option<u16>) -> TrafficEntry {
    TrafficEntry {
        id: id.to_string(),
        ts: "2026-07-02T14:23:01.123Z".to_string(),
        host: host.to_string(),
        method: method.to_string(),
        url: format!("https://{host}/"),
        req_headers: TextMap::new(),
        req_body: None,
        status,
        res_headers: TextMap::new(),
        res_body: None,
        duration_ms: Some(183),
    }
}

fn args(host: Option<&str>, method: Option<&str>, status: Option<u16>, limit: usize) -> LogsArgs {
    LogsArgs {
        host: host.map(|s| s.to_string()),
        method: method.map(|s| s.to_string()),
        status,
        limit,
        json: false,
    }
}

fn ids(v: &[TrafficEntry]) -> Vec<String> {
    v.iter().map(|e| e.id.clone()).collect()
}

fn sample() -> Vec<TrafficEntry> {
    vec![
        entry("1", "example.com", "GET", Some(200)),
        entry("2", "api.Example.com", "POST", Some(201)),
        entry("3", "other.org", "GET", None),
        entry("4", "example.com", "GET", Some(404)),
        entry("5", "EXAMPLE.com", "DELETE", Some(200)),
    ]
}

#[test]
fn backend_path_is_traffic_jsonl_in_data_dir() {
    assert_eq!(JsonLinesBackend::new("/home/u/.local/share/taphttp").path(), "/home/u/.local/share/taphttp/traffic.jsonl");
    assert_eq!(JsonLinesBackend::new("/data/").path(), "/data/traffic.jsonl");
    assert_eq!(JsonLinesBackend::new("").path(), "traffic.jsonl");
}

#[test]
fn record_line_ends_with_line_break() {
    assert_eq!(record_line("{\"id\":\"1\"}"), "{\"id\":\"1\"}\n");
}

#[test]
fn records_skip_empty_lines() {
    let content = "{\"id\":\"1\"}\n\n{\"id\":\"2\"}\r\n";
    assert_eq!(records_of(content), vec!["{\"id\":\"1\"}".to_string(), "{\"id\":\"2\"}".to_string()]);
    assert_eq!(records_of(""), Vec::<String>::new());
}

#[test]
fn appended_record_is_read_back_last() {
    let mut content = String::from("{\"id\":\"1\"}\n");
    content.push_str(&record_line("{\"id\":\"2\"}"));
    let records = records_of(&content);
    assert_eq!(records.last().map(|s| s.as_str()), Some("{\"id\":\"2\"}"));
    assert_eq!(records.len(), 2);
}

#[test]
fn select_without_filters_keeps_last_n_in_order() {
    assert_eq!(ids(&select_entries(sample(), &args(None, None, None, 50))), vec!["1", "2", "3", "4", "5"]);
    assert_eq!(ids(&select_entries(sample(), &args(None, None, None, 2))), vec!["4", "5"]);
    assert_eq!(ids(&select_entries(sample(), &args(None, None, None, 0))), Vec::<String>::new());
}

#[test]
fn select_host_filter_ignores_case() {
    assert_eq!(
        ids(&select_entries(sample(), &args(Some("Example.COM"), None, None, 50))),
        vec!["1", "2", "4", "5"]
    );
}

#[test]
fn select_method_filter_is_upper_cased() {
    assert_eq!(ids(&select_entries(sample(), &args(None, Some("get"), None, 50))), vec!["1", "3", "4"]);
}

#[test]
fn select_status_filter() {
    assert_eq!(ids(&select_entries(sample(), &args(None, None, Some(200), 50))), vec!["1", "5"]);
    assert_eq!(ids(&select_entries(sample(), &args(None, None, Some(500), 50))), Vec::<String>::new());
}

#[test]
fn select_filters_combine_before_limit() {
    assert_eq!(
        ids(&select_entries(sample(), &args(Some("example"), Some("GET"), None, 1))),
        vec!["4"]
    );
}

#[test]
fn find_entry_gives_first_match() {
    let mut v = sample();
    v.push(entry("3", "late.org", "PUT", None));
    let found = find_entry(v, "3").unwrap();
    assert_eq!(found.host, "other.org");
    assert!(find_entry(sample(), "missing").is_none());
}

#[test]
fn table_layout_matches_format_widths() {
    let mut e = entry("3f2a1b4c-8d9e-4a7b-b3c1-2e5f6a7d8e9f", "a-very-long-hostname.example.com", "GET", Some(200));
    e.url = "https://a-very-long-hostname.example.com/api/users/with/a/very/long/path?and=query".to_string();
    let f = entry("x", "example.com", "POST", None);
    let lines = render_table(&vec![e, f]);
    let heading = format!("{:<36}  {:<6}  {:<20}  {:<6}  {}", "ID", "METHOD", "HOST", "STATUS", "URL");
    assert_eq!(lines[0], heading);
    assert_eq!(lines[1], "-".repeat(100));
    assert_eq!(
        lines[2],
        format!(
            "{:<36}  {:<6}  {:<20}  {:<6}  {}",
            "3f2a1b4c-8d9e-4a7b-b3c1-2e5f6a7d8e9f",
            "GET",
            "a-very-long-hostname",
            "200",
            &"https://a-very-long-hostname.example.com/api/users/with/a/very/long/path?and=query"[..60]
        )
    );
    assert_eq!(
        lines[3],
        format!("{:<36}  {:<6}  {:<20}  {:<6}  {}", "x", "POST", "example.com", "-", "https://example.com/")
    );
    assert_eq!(lines.len(), 4);
}

#[test]
fn row_of_single_entry() {
    let e = entry("id", "h", "GET", Some(404));
    assert_eq!(render_row(&e), format!("{:<36}  {:<6}  {:<20}  {:<6}  {}", "id", "GET", "h", "404", "https://h/"));
}
