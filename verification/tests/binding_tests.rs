use linecheck::binding::{check_hosted, pack_range, CheckResult};
use linecheck::config::Config;
use linecheck::result::{FileResult, Status};
use linecheck::rule::Rule;

#[test]
fn config_error_record() {
    let r = CheckResult::config_error("bad yaml".to_string());
    assert_eq!(r.status, "error");
    assert_eq!(r.lines, 0);
    assert_eq!(r.message.as_deref(), Some("bad yaml"));
}

#[test]
fn record_from_result() {
    let r = CheckResult::from(FileResult {
        status: Status::Warn,
        lines: 250,
        warn_limit: Some(200),
        error_limit: Some(400),
        message: None,
    });
    assert_eq!(r.status, "warn");
    assert_eq!((r.lines, r.warn_limit, r.error_limit), (250, Some(200), Some(400)));
}

#[test]
fn hosted_check_uses_defaults_and_config() {
    let content = "x\n".repeat(201);
    let r = check_hosted("src/main.rs", content.as_bytes(), None);
    assert_eq!(r.status, "warn");
    let cfg = Config {
        rules: vec![Rule { pattern: "**/*.rs".into(), warn: None, warn_message: None, error: Some(100), error_message: None }],
        exclude: vec![],
    };
    let r = check_hosted("src/main.rs", content.as_bytes(), Some(Ok(cfg)));
    assert_eq!(r.status, "error");
    assert_eq!(r.error_limit, Some(100));
    let r = check_hosted("src/main.rs", content.as_bytes(), Some(Err("oops".into())));
    assert_eq!(r.status, "error");
    assert_eq!(r.lines, 0);
}

#[test]
fn packed_range_halves() {
    assert_eq!(pack_range(0x10, 0x20), 0x0000_0010_0000_0020);
    assert_eq!(pack_range(u32::MAX, 1) >> 32, u32::MAX as u64);
    assert_eq!(pack_range(7, u32::MAX) & 0xffff_ffff, u32::MAX as u64);
}
