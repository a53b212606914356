use taphttp::text::{
    chars_of, concat_text, contains_text, eq_ignoring_ascii_case, decimal, lines_of, pad_right, split_first, split_last, trim,
    truncate,
};

#[test]
fn truncate_keeps_short_text() {
    assert_eq!(truncate("example.com", 20), "example.com");
    assert_eq!(truncate("", 0), "");
    assert_eq!(truncate("abc", 3), "abc");
}

#[test]
fn truncate_cuts_at_byte_count() {
    assert_eq!(truncate("a-very-long-host-name.example.com", 20), "a-very-long-host-nam");
    assert_eq!(truncate("abcdef", 0), "");
    // "é" takes two bytes: cutting after it is a boundary.
    assert_eq!(truncate("héllo", 3), "hé");
}

#[test]
fn chars_and_concat() {
    assert_eq!(chars_of("añb"), vec!['a', 'ñ', 'b']);
    assert_eq!(concat_text("https://", "example.com"), "https://example.com");
    assert_eq!(concat_text("", ""), "");
}

#[test]
fn contains_text_matches_str_contains() {
    let cases = [
        ("example.com", "ample"),
        ("example.com", "EXAMPLE"),
        ("example.com", ""),
        ("", ""),
        ("", "a"),
        ("aaab", "aab"),
        ("short", "longer text"),
        ("api.example.com", "example.com"),
    ];
    for (h, n) in cases {
        assert_eq!(contains_text(h, n), h.contains(n), "{h:?} {n:?}");
    }
}

#[test]
fn lines_of_matches_str_lines() {
    let cases = [
        "",
        "\n",
        "a",
        "a\n",
        "a\nb",
        "a\r\nb\r\n",
        "a\r",
        "a\r\r\n",
        "\n\n",
        "{\"id\":\"1\"}\n\n{\"id\":\"2\"}\n",
        "x\ry\nz",
    ];
    for c in cases {
        let expected: Vec<String> = c.lines().map(|l| l.to_string()).collect();
        assert_eq!(lines_of(c), expected, "{c:?}");
    }
}

#[test]
fn trim_matches_str_trim() {
    let cases = [
        "",
        "   ",
        " a ",
        "\tKey\r\n",
        "a b",
        "\u{a0}x\u{3000}",
        "\u{2009}y\u{85}",
        "\u{200b}z",
    ];
    for c in cases {
        assert_eq!(trim(c), c.trim(), "{c:?}");
    }
}

#[test]
fn split_first_and_last() {
    assert_eq!(
        split_first("Authorization: Bearer a:b", ':'),
        Some(("Authorization".to_string(), " Bearer a:b".to_string()))
    );
    assert_eq!(split_first("no-colon", ':'), None);
    assert_eq!(split_first(":", ':'), Some((String::new(), String::new())));
    assert_eq!(
        split_last("[::1]:8443", ':'),
        Some(("[::1]".to_string(), "8443".to_string()))
    );
    assert_eq!(split_last("example.com", ':'), None);
}

#[test]
fn pad_right_matches_format() {
    for (s, w) in [("ID", 36), ("GET", 6), ("exactly-six", 6), ("", 3), ("é", 4)] {
        assert_eq!(pad_right(s, w), format!("{:<w$}", s, w = w));
    }
}

#[test]
fn decimal_matches_to_string() {
    for n in [0u64, 7, 10, 200, 404, 502, 65535, u64::MAX] {
        assert_eq!(decimal(n), n.to_string());
    }
}

#[test]
fn ascii_case_insensitive_equality() {
    for (a, b) in [("Accept", "accept"), ("X-Y", "x-y"), ("a", "b"), ("", ""), ("ab", "a"), ("\u{c9}", "\u{e9}"), ("[", "{")] {
        assert_eq!(eq_ignoring_ascii_case(a, b), a.eq_ignore_ascii_case(b), "{a:?} {b:?}");
    }
}
