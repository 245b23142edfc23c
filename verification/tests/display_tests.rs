use linecheck::checker::{check_content, check_file, CheckOptions};
use linecheck::config::Config;
use linecheck::display::{
    digits, json_document_text, json_report_items, print_json, print_status, print_violations,
    status_table_rows, table_text, violation_report,
};
use linecheck::result::{FileResult, Status};
use linecheck::rule::Rule;
use linecheck::text::decimal;

fn content(line_count: usize) -> Vec<u8> {
    (0..line_count).map(|i| format!("line{i}\n")).collect::<String>().into_bytes()
}

fn checked(name: &str, line_count: usize, opts: &CheckOptions) -> (String, FileResult) {
    let path = format!("/tmp/dir/{name}");
    let r = check_content(&path, &content(line_count), None, opts);
    (path, r)
}

fn checked_with(name: &str, line_count: usize, cfg: &Config, opts: &CheckOptions) -> (String, FileResult) {
    let path = format!("/tmp/dir/{name}");
    let r = check_content(&path, &content(line_count), Some(cfg), opts);
    (path, r)
}

fn unlimited() -> CheckOptions {
    CheckOptions { max_lines: None, fallback_warn: None, fallback_error: None, skip_whitespace: false }
}

fn with_limits(warn: usize, error: usize) -> CheckOptions {
    CheckOptions { max_lines: None, fallback_warn: Some(warn), fallback_error: Some(error), skip_whitespace: false }
}

fn message_config() -> Config {
    Config {
        rules: vec![Rule {
            pattern: "*.txt".into(),
            warn: None,
            warn_message: None,
            error: Some(5),
            error_message: Some("too long!".into()),
        }],
        exclude: vec![],
    }
}

#[test]
fn digits_tests_digits_zero() {
    assert_eq!(digits(0), 1);
}

#[test]
fn digits_tests_digits_single_digit() {
    assert_eq!(digits(9), 1);
}

#[test]
fn digits_tests_digits_two_digits() {
    assert_eq!(digits(10), 2);
}

#[test]
fn digits_tests_digits_large() {
    assert_eq!(digits(1000), 4);
}

#[test]
fn json_tests_1a_print_json_violations_empty_prints_brackets() {
    let f = checked("small.txt", 2, &with_limits(100, 200));
    let mut has_error = false;
    let doc = print_json(&[f], false, &mut has_error);
    assert!(!has_error);
    assert_eq!(doc, "[]");
}

#[test]
fn json_tests_1a_print_json_error_violation() {
    let f = checked("big.txt", 20, &with_limits(5, 10));
    let mut has_error = false;
    print_json(&[f], false, &mut has_error);
    assert!(has_error);
}

#[test]
fn json_tests_1b_print_json_warn_violation() {
    let f = checked("medium.txt", 8, &with_limits(5, 20));
    let mut has_error = false;
    print_json(&[f], false, &mut has_error);
    assert!(!has_error);
}

#[test]
fn json_tests_1b_print_json_status_mode_includes_ok_files() {
    let f = checked("file.txt", 5, &with_limits(10, 20));
    let mut has_error = false;
    print_json(&[f], true, &mut has_error);
    assert!(!has_error);
}

#[test]
fn json_tests_2_print_json_status_mode_no_limits_skips_file() {
    let f = checked("file.txt", 5, &unlimited());
    let mut has_error = false;
    print_json(&[f], true, &mut has_error);
}

#[test]
fn json_tests_2_print_json_message_field_included() {
    let f = checked_with("big.txt", 10, &message_config(), &unlimited());
    let mut has_error = false;
    print_json(&[f], false, &mut has_error);
    assert!(has_error);
}

#[test]
fn json_tests_2_print_json_zero_limit_zero_percent() {
    let opts = CheckOptions { max_lines: Some(0), fallback_warn: None, fallback_error: None, skip_whitespace: false };
    let f = checked("empty.txt", 0, &opts);
    let mut has_error = false;
    print_json(&[f], true, &mut has_error);
}

#[test]
fn status_tests_print_status_covers_ok_warn_error_rows() {
    let opts = with_limits(5, 15);
    let ok = checked("ok.txt", 2, &opts);
    let warn = checked("warn.txt", 8, &opts);
    let err = checked("err.txt", 20, &opts);
    let mut has_error = false;
    print_status(&[ok, warn, err], &mut has_error);
    assert!(has_error);
}

#[test]
fn status_tests_print_status_empty_list() {
    let mut has_error = false;
    let lines = print_status(&[], &mut has_error);
    assert!(!has_error);
    assert!(lines.is_empty());
}

#[test]
fn status_tests_print_status_no_limits_skips_row() {
    let f = checked("file.txt", 5, &unlimited());
    let mut has_error = false;
    print_status(&[f], &mut has_error);
    assert!(!has_error);
}

#[test]
fn status_tests_print_status_zero_limit_shows_zero_percent() {
    let opts = CheckOptions { max_lines: Some(0), fallback_warn: None, fallback_error: None, skip_whitespace: false };
    let f = checked("empty.txt", 0, &opts);
    let mut has_error = false;
    let lines = print_status(&[f], &mut has_error);
    assert_eq!(lines, vec!["/tmp/dir/empty.txt  0 / 0  0%".to_string()]);
    assert!(!has_error);
}

#[test]
fn violations_message_test_print_violations_message_is_printed() {
    let f = checked_with("big.txt", 10, &message_config(), &unlimited());
    let mut has_error = false;
    print_violations(&[f], &mut has_error);
    assert!(has_error);
}

#[test]
fn violations_tests_a_print_violations_ok_file_is_silent() {
    let f = checked("small.txt", 2, &with_limits(10, 20));
    let mut has_error = false;
    print_violations(&[f], &mut has_error);
    assert!(!has_error);
}

#[test]
fn violations_tests_a_print_violations_error_sets_flag() {
    let f = checked("big.txt", 20, &with_limits(5, 10));
    let mut has_error = false;
    print_violations(&[f], &mut has_error);
    assert!(has_error);
}

#[test]
fn violations_tests_b_print_violations_warn_does_not_set_error_flag() {
    let f = checked("medium.txt", 8, &with_limits(5, 20));
    let mut has_error = false;
    print_violations(&[f], &mut has_error);
    assert!(!has_error);
}

#[test]
fn violations_tests_b_print_violations_unreadable_file_does_not_propagate_err() {
    // An unreadable file yields an error for the caller to report; it is not
    // among the checked files, so the report goes on without it.
    let path = "/tmp/linecheck-display-test-nonexistent.txt";
    let read = check_file(path, Err("No such file or directory".to_string()), None, &with_limits(10, 20));
    assert!(read.is_err());
    let mut has_error = false;
    print_violations(&[], &mut has_error);
    assert!(!has_error);
}

#[test]
fn display_tests_digits_zero() {
    assert_eq!(digits(0), 1);
}

#[test]
fn display_tests_digits_single_digit() {
    assert_eq!(digits(9), 1);
}

#[test]
fn display_tests_digits_two_digits() {
    assert_eq!(digits(10), 2);
}

#[test]
fn display_tests_digits_large() {
    assert_eq!(digits(1000), 4);
}

#[test]
fn display_tests_print_json_violations_empty_prints_brackets() {
    let f = checked("small.txt", 2, &with_limits(100, 200));
    let mut has_error = false;
    let doc = print_json(&[f], false, &mut has_error);
    assert!(!has_error);
    assert_eq!(doc, "[]");
}

#[test]
fn display_tests_print_json_error_violation() {
    let f = checked("big.txt", 20, &with_limits(5, 10));
    let mut has_error = false;
    print_json(&[f], false, &mut has_error);
    assert!(has_error);
}

#[test]
fn display_tests_print_json_warn_violation() {
    let f = checked("medium.txt", 8, &with_limits(5, 20));
    let mut has_error = false;
    print_json(&[f], false, &mut has_error);
    assert!(!has_error);
}

#[test]
fn display_tests_print_json_status_mode_includes_ok_files() {
    let f = checked("file.txt", 5, &with_limits(10, 20));
    let mut has_error = false;
    print_json(&[f], true, &mut has_error);
    assert!(!has_error);
}

#[test]
fn display_tests_print_json_status_mode_no_limits_skips_file() {
    let f = checked("file.txt", 5, &unlimited());
    let mut has_error = false;
    print_json(&[f], true, &mut has_error);
}

#[test]
fn display_tests_print_json_message_field_included() {
    let f = checked_with("big.txt", 10, &message_config(), &unlimited());
    let mut has_error = false;
    print_json(&[f], false, &mut has_error);
    assert!(has_error);
}

#[test]
fn display_tests_print_json_zero_limit_zero_percent() {
    let opts = CheckOptions { max_lines: Some(0), fallback_warn: None, fallback_error: None, skip_whitespace: false };
    let f = checked("empty.txt", 0, &opts);
    let mut has_error = false;
    print_json(&[f], true, &mut has_error);
}

#[test]
fn display_tests_print_status_covers_ok_warn_error_rows() {
    let opts = with_limits(5, 15);
    let ok = checked("ok.txt", 2, &opts);
    let warn = checked("warn.txt", 8, &opts);
    let err = checked("err.txt", 20, &opts);
    let mut has_error = false;
    print_status(&[ok, warn, err], &mut has_error);
    assert!(has_error);
}

#[test]
fn display_tests_print_status_empty_list() {
    let mut has_error = false;
    let lines = print_status(&[], &mut has_error);
    assert!(!has_error);
    assert!(lines.is_empty());
}

#[test]
fn display_tests_print_status_no_limits_skips_row() {
    let f = checked("file.txt", 5, &unlimited());
    let mut has_error = false;
    print_status(&[f], &mut has_error);
    assert!(!has_error);
}

#[test]
fn display_tests_print_status_zero_limit_shows_zero_percent() {
    let opts = CheckOptions { max_lines: Some(0), fallback_warn: None, fallback_error: None, skip_whitespace: false };
    let f = checked("empty.txt", 0, &opts);
    let mut has_error = false;
    let lines = print_status(&[f], &mut has_error);
    assert_eq!(lines, vec!["/tmp/dir/empty.txt  0 / 0  0%".to_string()]);
    assert!(!has_error);
}

#[test]
fn display_tests_print_violations_message_is_printed() {
    let f = checked_with("big.txt", 10, &message_config(), &unlimited());
    let mut has_error = false;
    print_violations(&[f], &mut has_error);
    assert!(has_error);
}

#[test]
fn display_tests_print_violations_ok_file_is_silent() {
    let f = checked("small.txt", 2, &with_limits(10, 20));
    let mut has_error = false;
    print_violations(&[f], &mut has_error);
    assert!(!has_error);
}

#[test]
fn display_tests_print_violations_error_sets_flag() {
    let f = checked("big.txt", 20, &with_limits(5, 10));
    let mut has_error = false;
    print_violations(&[f], &mut has_error);
    assert!(has_error);
}

#[test]
fn display_tests_print_violations_warn_does_not_set_error_flag() {
    let f = checked("medium.txt", 8, &with_limits(5, 20));
    let mut has_error = false;
    print_violations(&[f], &mut has_error);
    assert!(!has_error);
}

#[test]
fn display_tests_print_violations_unreadable_file_does_not_propagate_err() {
    // An unreadable file yields an error for the caller to report; it is not
    // among the checked files, so the report goes on without it.
    let path = "/tmp/linecheck-display-test-nonexistent.txt";
    let read = check_file(path, Err("No such file or directory".to_string()), None, &with_limits(10, 20));
    assert!(read.is_err());
    let mut has_error = false;
    print_violations(&[], &mut has_error);
    assert!(!has_error);
}

fn text(lines: Vec<String>) -> Vec<String> {
    lines
}

#[test]
fn status_table_is_aligned() {
    let opts = with_limits(5, 15);
    let rows = status_table_rows(&[
        checked("ok.txt", 2, &opts),
        checked("warn.txt", 8, &opts),
        checked("err.txt", 20, &opts),
    ]);
    assert_eq!(rows.len(), 3);
    assert_eq!(rows[0].limit, 5);
    assert_eq!(rows[1].limit, 5);
    assert_eq!(rows[2].limit, 15);
    let lines = text(table_text(&rows));
    assert_eq!(lines, vec![
        "/tmp/dir/ok.txt     2 / 5   40%".to_string(),
        "/tmp/dir/warn.txt   8 / 5   [WARN]".to_string(),
        "/tmp/dir/err.txt   20 / 15  [ERROR]".to_string(),
    ]);
}

#[test]
fn status_table_zero_limit() {
    let opts = CheckOptions { max_lines: Some(0), fallback_warn: None, fallback_error: None, skip_whitespace: false };
    let rows = status_table_rows(&[checked("empty.txt", 0, &opts)]);
    assert_eq!(table_text(&rows), vec!["/tmp/dir/empty.txt  0 / 0  0%".to_string()]);
}

#[test]
fn status_rows_skip_files_without_limits() {
    let rows = status_table_rows(&[checked("file.txt", 5, &unlimited())]);
    assert!(rows.is_empty());
}

#[test]
fn violation_lines_text() {
    let lines = violation_report(&[
        checked("small.txt", 2, &with_limits(10, 20)),
        checked("medium.txt", 8, &with_limits(5, 20)),
        checked_with("big.txt", 10, &message_config(), &unlimited()),
    ]);
    assert_eq!(lines, vec![
        "/tmp/dir/medium.txt: 8 lines (warn threshold: 5)".to_string(),
        "/tmp/dir/big.txt: 10 lines (error threshold: 5) \u{2014} too long!".to_string(),
    ]);
}

#[test]
fn json_document_text_forms() {
    assert_eq!(json_document_text(&vec![]), "[]");
    let items = json_report_items(&[checked("big.txt", 20, &with_limits(5, 10))], false);
    assert_eq!(items, vec![
        r#"  {"file":"/tmp/dir/big.txt","lines":20,"limit":10,"percent":200,"status":"error"}"#.to_string(),
    ]);
    assert_eq!(json_document_text(&items), format!("[\n{}\n]", items[0]));
}

#[test]
fn json_items_status_mode_and_message() {
    let items = json_report_items(&[
        checked("file.txt", 5, &with_limits(10, 20)),
        checked_with("big.txt", 10, &message_config(), &unlimited()),
        checked("free.txt", 5, &unlimited()),
    ], true);
    assert_eq!(items, vec![
        r#"  {"file":"/tmp/dir/file.txt","lines":5,"limit":10,"percent":50,"status":"ok"}"#.to_string(),
        r#"  {"file":"/tmp/dir/big.txt","lines":10,"limit":5,"percent":200,"status":"error","message":"too long!"}"#.to_string(),
    ]);
    let two = json_document_text(&items);
    assert_eq!(two, format!("[\n{},\n{}\n]", items[0], items[1]));
}

#[test]
fn json_escapes_paths_like_serde() {
    let (_, r) = checked("x.txt", 20, &with_limits(5, 10));
    let items = json_report_items(&[("a\"b\\c\u{8}.txt".to_string(), r)], false);
    assert!(items[0].starts_with(r#"  {"file":"a\"b\\c\b.txt","#));
}

#[test]
fn json_warn_uses_warn_limit() {
    let items = json_report_items(&[checked("medium.txt", 8, &with_limits(5, 20))], false);
    assert_eq!(items, vec![
        r#"  {"file":"/tmp/dir/medium.txt","lines":8,"limit":5,"percent":160,"status":"warn"}"#.to_string(),
    ]);
    let (_, r) = checked("a.txt", 1, &with_limits(5, 20));
    assert_eq!(r.status, Status::Okay);
}

#[test]
fn digits_match_decimal_length() {
    for n in [0usize, 7, 10, 99, 100, 12345, usize::MAX] {
        assert_eq!(digits(n), decimal(n).len());
    }
    assert_eq!(decimal(12345), "12345");
}

fn readme_files() -> Vec<(String, FileResult)> {
    let opts = CheckOptions::default();
    [("src/main.rs", 450), ("src/utils.rs", 220), ("src/lib.rs", 180), ("src/config.rs", 45)]
        .iter()
        .map(|(p, n)| (p.to_string(), check_content(p, &content(*n), None, &opts)))
        .collect()
}

#[test]
fn readme_status_table() {
    let mut has_error = false;
    let lines = print_status(&readme_files(), &mut has_error);
    assert!(has_error);
    assert_eq!(lines, vec![
        "src/main.rs    450 / 400  [ERROR]".to_string(),
        "src/utils.rs   220 / 200  [WARN]".to_string(),
        "src/lib.rs     180 / 200  90%".to_string(),
        "src/config.rs   45 / 200  22%".to_string(),
    ]);
}

#[test]
fn readme_violations() {
    let mut has_error = false;
    let lines = print_violations(&readme_files(), &mut has_error);
    assert!(has_error);
    assert_eq!(lines, vec![
        "src/main.rs: 450 lines (error threshold: 400)".to_string(),
        "src/utils.rs: 220 lines (warn threshold: 200)".to_string(),
    ]);
}

#[test]
fn readme_json() {
    let mut has_error = false;
    let doc = print_json(&readme_files()[..2], false, &mut has_error);
    assert!(has_error);
    assert_eq!(doc, format!(
        "[\n{},\n{}\n]",
        r#"  {"file":"src/main.rs","lines":450,"limit":400,"percent":112,"status":"error"}"#,
        r#"  {"file":"src/utils.rs","lines":220,"limit":200,"percent":110,"status":"warn"}"#,
    ));
}
