use linecheck::checker::{check_content, CheckOptions};
use linecheck::display::json_report_items;
use linecheck::escape::json_str;

#[test]
fn json_str_quotes_and_escapes() {
    assert_eq!(json_str("plain"), "\"plain\"");
    assert_eq!(json_str("a\"b\\c"), "\"a\\\"b\\\\c\"");
    assert_eq!(json_str("x\ny\r\tz"), "\"x\\ny\\r\\tz\"");
    assert_eq!(json_str("\u{1}\u{1f}"), "\"\\u0001\\u001f\"");
    assert_eq!(json_str("\u{8}\u{c}"), "\"\\u0008\\u000c\"");
    assert_eq!(json_str("ünï"), "\"ünï\"");
}

fn file_item(path: &str) -> String {
    let opts = CheckOptions { max_lines: Some(0), fallback_warn: None, fallback_error: None, skip_whitespace: false };
    let r = check_content(path, b"x\n", None, &opts);
    json_report_items(&[(path.to_string(), r)], false).remove(0)
}

#[test]
fn serde_escapes_backspace_and_form_feed_short() {
    assert!(file_item("\u{8}\u{c}").starts_with("  {\"file\":\"\\b\\f\","));
    assert!(file_item("a\"b\\c\n\u{1}").starts_with("  {\"file\":\"a\\\"b\\\\c\\n\\u0001\","));
    assert!(file_item("plain").starts_with(&format!("  {{\"file\":{},", json_str("plain"))));
}
