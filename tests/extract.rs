use tweet_deleter::extract::{deletion_order, json_array_slice};

fn record_ids(json: &str) -> Vec<String> {
    let value: serde_json::Value = serde_json::from_str(json).unwrap();
    let mut ids = Vec::new();
    for entry in value.as_array().unwrap() {
        ids.push(entry["tweet"]["tweet_id"].as_str().unwrap().to_string());
    }
    ids
}

#[test]
fn archive_ids_come_oldest_first() {
    let raw = "window.YTD.tweet_headers.part0 = [{\"tweet\":{\"tweet_id\":\"1\"}},{\"tweet\":{\"tweet_id\":\"2\"}}]";
    let slice = json_array_slice(raw).unwrap();
    assert_eq!(slice, "[{\"tweet\":{\"tweet_id\":\"1\"}},{\"tweet\":{\"tweet_id\":\"2\"}}]");
    let ids = deletion_order(record_ids(slice));
    assert_eq!(ids, vec!["2".to_string(), "1".to_string()]);
}

#[test]
fn bare_array_is_taken_whole() {
    let raw = "[{\"tweet\":{\"tweet_id\":\"1\"}},{\"tweet\":{\"tweet_id\":\"2\"}}]";
    assert_eq!(json_array_slice(raw), Some(raw));
}

#[test]
fn array_starts_at_first_bracket() {
    assert_eq!(json_array_slice("x = [1] [2]"), Some("[1] [2]"));
    assert_eq!(json_array_slice("é = [\"ü\"]"), Some("[\"ü\"]"));
}

#[test]
fn text_without_bracket_has_no_array() {
    assert_eq!(json_array_slice("window.YTD = {}"), None);
    assert_eq!(json_array_slice(""), None);
}

#[test]
fn reversal_keeps_every_id() {
    let ids = vec!["a".to_string(), "b".to_string(), "a".to_string(), "c".to_string()];
    let out = deletion_order(ids);
    assert_eq!(out, vec!["c".to_string(), "a".to_string(), "b".to_string(), "a".to_string()]);
}

#[test]
fn reversal_of_empty_and_single() {
    assert_eq!(deletion_order(Vec::new()), Vec::<String>::new());
    assert_eq!(deletion_order(vec!["7".to_string()]), vec!["7".to_string()]);
}

#[test]
fn empty_archive_array_gives_no_ids() {
    let raw = "window.YTD.tweet_headers.part0 = []";
    let ids = deletion_order(record_ids(json_array_slice(raw).unwrap()));
    assert!(ids.is_empty());
}
