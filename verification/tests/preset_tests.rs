use linecheck::args::Args;
use linecheck::preset::{Preset, DEFAULT_ERROR, DEFAULT_WARN};

#[test]
fn preset_limits() {
    assert_eq!(Preset::Strict.limits(), (Some(100), Some(100)));
    assert_eq!(Preset::Free.limits(), (None, None));
    assert_eq!(Preset::Default.limits(), (Some(DEFAULT_WARN), Some(DEFAULT_ERROR)));
}

#[test]
fn preset_strict_limits() {
    assert_eq!(Preset::Strict.limits(), (Some(100), Some(100)));
}

#[test]
fn preset_default_limits() {
    assert_eq!(Preset::Default.limits(), (Some(DEFAULT_WARN), Some(DEFAULT_ERROR)));
}

#[test]
fn preset_loose_limits() {
    assert_eq!(Preset::Loose.limits(), (Some(400), Some(400)));
}

#[test]
fn preset_free_limits() {
    assert_eq!(Preset::Free.limits(), (None, None));
}

fn args() -> Args {
    Args {
        paths: vec![".".to_string()],
        max_lines: None,
        config: "linecheck.yml".to_string(),
        status: false,
        json: false,
        strict: false,
        default_preset: false,
        loose: false,
        free: false,
    }
}

#[test]
fn fallback_limits_default_without_flags() {
    assert_eq!(args().fallback_limits(), (Some(200), Some(400)));
}

#[test]
fn fallback_limits_follow_preset_flags() {
    let mut a = args();
    a.loose = true;
    assert_eq!(a.fallback_limits(), (Some(400), Some(400)));
    a.strict = true;
    assert_eq!(a.fallback_limits(), (Some(100), Some(100)));
    let mut f = args();
    f.free = true;
    assert_eq!(f.fallback_limits(), (None, None));
}

#[test]
fn check_options_carry_max_lines() {
    let mut a = args();
    a.max_lines = Some(50);
    a.strict = true;
    let o = a.check_options();
    assert_eq!(o.max_lines, Some(50));
    assert_eq!((o.fallback_warn, o.fallback_error), (Some(100), Some(100)));
    assert!(!o.skip_whitespace);
}
