use linecheck::checker::{build_result, check_content, check_file, resolve_limits, CheckOptions};
use linecheck::config::Config;
use linecheck::config::invalid_patterns;
use linecheck::result::Status;
use linecheck::rule::Rule;

fn rule(pattern: &str, warn: Option<usize>, error: Option<usize>) -> Rule {
    Rule { pattern: pattern.into(), warn, warn_message: None, error, error_message: None }
}

fn no_fallback() -> CheckOptions {
    CheckOptions { max_lines: None, fallback_warn: None, fallback_error: None, skip_whitespace: false }
}

#[test]
fn checker_status_ordering() {
    assert!(Status::Error > Status::Warn);
    assert!(Status::Warn > Status::Okay);
}

#[test]
fn checker_tests_status_ordering() {
    assert!(Status::Error > Status::Warn);
    assert!(Status::Warn > Status::Okay);
}

#[test]
fn check_file_with_invalid_glob_rule_falls_back_to_defaults() {
    let cfg = Config { rules: vec![rule("[invalid-pattern", Some(1), Some(1))], exclude: vec![] };
    assert!(invalid_patterns(&cfg).len() == 1, "pattern should be invalid");
    let data = b"line1\nline2\nline3\n";
    let result = check_file("/tmp/.tmpXYZ", Ok(&data[..]), Some(&cfg), &no_fallback()).unwrap();
    assert_eq!(result.status, Status::Okay);
}

#[test]
fn non_matching_rule_is_skipped_and_next_rule_wins() {
    let cfg = Config {
        rules: vec![rule("**/*.ts", None, Some(1)), rule("**/*.rs", None, Some(99))],
        exclude: vec![],
    };
    let result = check_file("/tmp/.tmpAbC.rs", Ok(&b"line1\n"[..]), Some(&cfg), &no_fallback()).unwrap();
    assert_eq!(result.error_limit, Some(99));
}

#[test]
fn check_content_matches_rule_by_virtual_path() {
    let cfg = Config {
        rules: vec![Rule {
            pattern: "**/*.rs".into(),
            warn: None,
            warn_message: None,
            error: Some(1),
            error_message: Some("too long".into()),
        }],
        exclude: vec![],
    };
    let result = check_content("src/main.rs", b"line1\nline2\n", Some(&cfg), &no_fallback());
    assert_eq!(result.status, Status::Error);
    assert_eq!(result.lines, 2);
    assert_eq!(result.message.as_deref(), Some("too long"));
}

#[test]
fn check_content_respects_ignore_marker() {
    let opts = CheckOptions { max_lines: Some(0), fallback_warn: None, fallback_error: None, skip_whitespace: false };
    // \x3a stands for ':' so this file does not carry the marker itself
    let result = check_content("src/generated.rs", b"// linecheck\x3aignore\nline1\n", None, &opts);
    assert_eq!(result.status, Status::Okay);
    assert_eq!(result.warn_limit, None);
    assert_eq!(result.error_limit, None);
}

#[test]
fn default_options_are_200_and_400() {
    let d = CheckOptions::default();
    assert_eq!(d, CheckOptions { max_lines: None, fallback_warn: Some(200), fallback_error: Some(400), skip_whitespace: false });
}

#[test]
fn exactly_at_limit_is_fine_one_more_is_not() {
    let opts = CheckOptions { max_lines: Some(3), fallback_warn: None, fallback_error: None, skip_whitespace: false };
    assert_eq!(check_content("a.txt", b"1\n2\n3\n", None, &opts).status, Status::Okay);
    assert_eq!(check_content("a.txt", b"1\n2\n3\n4\n", None, &opts).status, Status::Error);
}

#[test]
fn warn_between_limits_with_message() {
    let cfg = Config {
        rules: vec![Rule {
            pattern: "*.md".into(),
            warn: Some(1),
            warn_message: Some("getting long".into()),
            error: Some(3),
            error_message: Some("too long".into()),
        }],
        exclude: vec![],
    };
    let r = check_content("docs/a.md", b"a\nb\n", Some(&cfg), &CheckOptions::default());
    assert_eq!(r.status, Status::Warn);
    assert_eq!(r.message.as_deref(), Some("getting long"));
    assert_eq!((r.warn_limit, r.error_limit), (Some(1), Some(3)));
    let ok = check_content("docs/a.md", b"a\n", Some(&cfg), &CheckOptions::default());
    assert_eq!(ok.status, Status::Okay);
    assert_eq!(ok.message, None);
}

#[test]
fn max_lines_overrides_rules() {
    let cfg = Config { rules: vec![rule("*.rs", Some(1), Some(1))], exclude: vec![] };
    let opts = CheckOptions { max_lines: Some(10), fallback_warn: None, fallback_error: None, skip_whitespace: false };
    assert_eq!(resolve_limits("a.rs", Some(&cfg), &opts), (Some(10), Some(10), None, None));
}

#[test]
fn dot_slash_prefix_is_ignored_for_matching() {
    let cfg = Config { rules: vec![rule("src/*.rs", None, Some(7))], exclude: vec![] };
    assert_eq!(resolve_limits("./src/a.rs", Some(&cfg), &no_fallback()).1, Some(7));
    assert_eq!(resolve_limits("lib/a.rs", Some(&cfg), &no_fallback()).1, None);
}

#[test]
fn no_config_uses_fallback() {
    let opts = CheckOptions { max_lines: None, fallback_warn: Some(5), fallback_error: Some(9), skip_whitespace: false };
    assert_eq!(resolve_limits("x", None, &opts), (Some(5), Some(9), None, None));
}

#[test]
fn skip_whitespace_option_counts_non_blank() {
    let opts = CheckOptions { max_lines: Some(2), fallback_warn: None, fallback_error: None, skip_whitespace: true };
    let r = check_content("a.txt", b"a\n\n\n\nb\n", None, &opts);
    assert_eq!(r.lines, 2);
    assert_eq!(r.status, Status::Okay);
}

#[test]
fn read_error_is_passed_through() {
    let r = check_file("missing.txt", Err("reading missing.txt: not found".to_string()), None, &CheckOptions::default());
    assert_eq!(r, Err("reading missing.txt: not found".to_string()));
}

#[test]
fn ignored_result_has_no_limits() {
    let r = build_result("a.rs", 1000, true, None, &CheckOptions::default());
    assert_eq!(r.status, Status::Okay);
    assert_eq!(r.lines, 1000);
    assert_eq!(r.error_limit, None);
}

#[test]
fn matching_rule_overrides_preset_fallback() {
    let cfg = Config { rules: vec![rule("*.rs", Some(10), Some(20))], exclude: vec![] };
    let strict = CheckOptions { max_lines: None, fallback_warn: Some(100), fallback_error: Some(100), skip_whitespace: false };
    let free = CheckOptions { max_lines: None, fallback_warn: None, fallback_error: None, skip_whitespace: false };
    assert_eq!(resolve_limits("a.rs", Some(&cfg), &strict), resolve_limits("a.rs", Some(&cfg), &free));
    assert_eq!(resolve_limits("a.rs", Some(&cfg), &free), (Some(10), Some(20), None, None));
}

#[test]
fn more_lines_never_lower_status() {
    let opts = CheckOptions { max_lines: None, fallback_warn: Some(2), fallback_error: Some(4), skip_whitespace: false };
    let mut last = Status::Okay;
    for n in 0..8 {
        let data = "x\n".repeat(n);
        let s = check_content("a.txt", data.as_bytes(), None, &opts).status;
        assert!(s >= last);
        last = s;
    }
    assert_eq!(last, Status::Error);
}
