use tweet_deleter::headers::{load_headers, split_lines, MAX_FILE_HEADERS};

fn value_of(map: &reqwest::header::HeaderMap, name: &str) -> Option<String> {
    map.get(name).map(|v| v.to_str().unwrap().to_string())
}

#[test]
fn header_file_scenario() {
    let loaded = load_headers("Authorization: Bearer xyz\nbadline\nCookie: a=b");
    assert_eq!(loaded.headers.len(), 3);
    assert_eq!(value_of(&loaded.headers, "authorization").as_deref(), Some("Bearer xyz"));
    assert_eq!(value_of(&loaded.headers, "cookie").as_deref(), Some("a=b"));
    assert_eq!(value_of(&loaded.headers, "content-type").as_deref(), Some("application/json"));
    assert!(loaded.rejected.is_empty());
}

#[test]
fn content_type_overrides_file() {
    let loaded = load_headers("Content-Type: text/plain\nAccept: */*\n");
    assert_eq!(loaded.headers.len(), 2);
    assert_eq!(value_of(&loaded.headers, "content-type").as_deref(), Some("application/json"));
    assert_eq!(loaded.headers.get_all("content-type").iter().count(), 1);
}

#[test]
fn empty_file_gives_content_type_only() {
    let loaded = load_headers("");
    assert_eq!(loaded.headers.len(), 1);
    assert_eq!(value_of(&loaded.headers, "content-type").as_deref(), Some("application/json"));
}

#[test]
fn invalid_name_is_skipped_and_reported() {
    let loaded = load_headers("bad name: x\nX-Ok: 1\n: empty\n");
    assert_eq!(loaded.headers.len(), 2);
    assert_eq!(value_of(&loaded.headers, "x-ok").as_deref(), Some("1"));
    assert_eq!(loaded.rejected, vec!["bad name: x".to_string(), ": empty".to_string()]);
}

#[test]
fn invalid_value_is_skipped_and_reported() {
    let loaded = load_headers("X-A: a\u{1}b\nX-B: tab\there");
    assert_eq!(value_of(&loaded.headers, "x-a"), None);
    assert_eq!(value_of(&loaded.headers, "x-b").as_deref(), Some("tab\there"));
    assert_eq!(loaded.rejected, vec!["X-A: a\u{1}b".to_string()]);
}

#[test]
fn names_are_lower_cased_and_sides_trimmed() {
    let loaded = load_headers("  X-Csrf-Token :   abc def  \r\n");
    assert_eq!(value_of(&loaded.headers, "x-csrf-token").as_deref(), Some("abc def"));
}

#[test]
fn value_keeps_later_colons() {
    let loaded = load_headers("Referer: https://example.com:443/x");
    assert_eq!(value_of(&loaded.headers, "referer").as_deref(), Some("https://example.com:443/x"));
}

#[test]
fn later_line_replaces_earlier() {
    let loaded = load_headers("Cookie: a=1\ncookie: b=2");
    assert_eq!(loaded.headers.len(), 2);
    assert_eq!(value_of(&loaded.headers, "cookie").as_deref(), Some("b=2"));
}

#[test]
fn lines_split_like_str_lines() {
    let cases = ["", "a", "a\n", "a\r\nb", "a\n\nb\n", "\n", "a\r", "x\r\r\ny", "\r\n\r\n"];
    for text in cases {
        let expected: Vec<String> = text.lines().map(|l| l.to_string()).collect();
        assert_eq!(split_lines(text), expected, "{:?}", text);
    }
}

#[test]
fn malformed_line_in_the_middle_changes_nothing() {
    let with = load_headers("A: 1\nbadline\nbad name: 2\nB: 3\n");
    let without = load_headers("A: 1\nB: 3\n");
    assert_eq!(with.headers, without.headers);
    assert_eq!(with.rejected, vec!["bad name: 2".to_string()]);
    assert!(with.unread.is_empty());
}

#[test]
fn lines_past_the_cap_are_left_unread() {
    let mut text = String::new();
    for i in 0..MAX_FILE_HEADERS + 2 {
        text.push_str(&format!("X-H{}: v{}\n", i, i));
    }
    let loaded = load_headers(&text);
    assert_eq!(MAX_FILE_HEADERS, 6553);
    assert_eq!(loaded.headers.len(), MAX_FILE_HEADERS + 1);
    assert_eq!(value_of(&loaded.headers, "content-type").as_deref(), Some("application/json"));
    assert_eq!(value_of(&loaded.headers, "x-h6552").as_deref(), Some("v6552"));
    assert_eq!(value_of(&loaded.headers, "x-h6553"), None);
    assert_eq!(loaded.unread, vec!["X-H6553: v6553".to_string(), "X-H6554: v6554".to_string()]);
    assert!(loaded.rejected.is_empty());
}

#[test]
fn many_blank_lines_still_load() {
    let mut text = "\n".repeat(20000);
    text.push_str("Cookie: a=b");
    let loaded = load_headers(&text);
    assert_eq!(value_of(&loaded.headers, "cookie").as_deref(), Some("a=b"));
    assert_eq!(loaded.headers.len(), 2);
    assert!(loaded.unread.is_empty());
}
