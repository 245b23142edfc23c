//! Core file-checking logic: resolves limits and builds a [`FileResult`].
use vstd::prelude::*;
use crate::config::{Config, ConfigView};
use crate::lines::{content_info_with_options, ignored_content, line_count};
use crate::paths::{file_name_of, path_file_name, strip_dot_slash, without_dot_slash};
use crate::patterns::{glob_match, glob_valid, pattern_is_valid, pattern_matches};
use crate::preset::{DEFAULT_ERROR, DEFAULT_WARN};
use crate::result::{clone_text_opt, severity, text_opt, FileReport, FileResult, Status};
use crate::rule::RuleView;

verus! {

/// Options controlling how a single file is checked.
#[derive(Debug, Clone, PartialEq, Eq, Structural)]
pub struct CheckOptions {
    /// When set, overrides every rule and preset: every file uses this as both its warn and error threshold.
    pub max_lines: Option<usize>,
    /// Warn threshold used when no config rule matches the file. `None` means no warn limit.
    pub fallback_warn: Option<usize>,
    /// Error threshold used when no config rule matches the file. `None` means no error limit.
    pub fallback_error: Option<usize>,
    /// Leave blank and whitespace-only lines out of the count.
    pub skip_whitespace: bool,
}

impl Default for CheckOptions {
    /// No override, warn above 200 lines, error above 400, blank lines counted.
    fn default() -> (r: Self)
        ensures
            r.max_lines is None,
            r.fallback_warn == Some(DEFAULT_WARN),
            r.fallback_error == Some(DEFAULT_ERROR),
            !r.skip_whitespace,
    {
        CheckOptions {
            max_lines: None,
            fallback_warn: Some(DEFAULT_WARN),
            fallback_error: Some(DEFAULT_ERROR),
            skip_whitespace: false,
        }
    }
}

/// The thresholds and messages that apply to one file.
pub ghost struct Limits {
    pub warn: Option<usize>,
    pub error: Option<usize>,
    pub warn_message: Option<Seq<char>>,
    pub error_message: Option<Seq<char>>,
}

/// A rule applies to a path when its pattern compiles and matches either the
/// path (one leading `./` removed) or the path's file name.
pub open spec fn rule_applies(r: RuleView, path: Seq<char>) -> bool {
    &&& glob_valid(r.pattern)
    &&& {
        ||| glob_match(r.pattern, strip_dot_slash(path))
        ||| (path_file_name(path) matches Some(f) && glob_match(r.pattern, f))
    }
}

/// The first rule that applies to `path`.
pub open spec fn matching_rule(rules: Seq<RuleView>, path: Seq<char>) -> Option<RuleView>
    decreases rules.len(),
{
    if rules.len() == 0 {
        None
    } else if rule_applies(rules[0], path) {
        Some(rules[0])
    } else {
        matching_rule(rules.drop_first(), path)
    }
}

/// The abstract content of an optional config reference.
pub open spec fn config_view(config: Option<&Config>) -> Option<ConfigView> {
    match config {
        Some(c) => Some(c@),
        None => None,
    }
}

/// Limits for `path`: `max_lines` overrides everything; otherwise the first
/// matching rule of the config; otherwise the fallbacks, without messages.
pub open spec fn resolved_limits(path: Seq<char>, config: Option<ConfigView>, opts: CheckOptions) -> Limits {
    let fallback = Limits {
        warn: opts.fallback_warn,
        error: opts.fallback_error,
        warn_message: None,
        error_message: None,
    };
    match opts.max_lines {
        Some(m) => Limits { warn: Some(m), error: Some(m), warn_message: None, error_message: None },
        None => match config {
            Some(c) => match matching_rule(c.rules, path) {
                Some(r) => Limits {
                    warn: r.warn,
                    error: r.error,
                    warn_message: r.warn_message,
                    error_message: r.error_message,
                },
                None => fallback,
            },
            None => fallback,
        },
    }
}

/// A line count exceeds a limit when there is one and the count is above it.
pub open spec fn exceeds(lines: usize, limit: Option<usize>) -> bool {
    limit matches Some(l) && lines > l
}

/// Error above the error limit, else warn above the warn limit, else ok.
pub open spec fn classify(lines: usize, warn: Option<usize>, error: Option<usize>) -> Status {
    if exceeds(lines, error) {
        Status::Error
    } else if exceeds(lines, warn) {
        Status::Warn
    } else {
        Status::Okay
    }
}

/// The result for a file of `lines` lines at `path`.
pub open spec fn report_for(
    path: Seq<char>,
    lines: usize,
    ignored: bool,
    config: Option<ConfigView>,
    opts: CheckOptions,
) -> FileReport {
    if ignored {
        FileReport { status: Status::Okay, lines, warn_limit: None, error_limit: None, message: None }
    } else {
        let l = resolved_limits(path, config, opts);
        let status = classify(lines, l.warn, l.error);
        FileReport {
            status,
            lines,
            warn_limit: l.warn,
            error_limit: l.error,
            message: match status {
                Status::Error => l.error_message,
                Status::Warn => l.warn_message,
                Status::Okay => None,
            },
        }
    }
}

/// The result of checking in-memory content `data` at `path`.
pub open spec fn content_report(
    path: Seq<char>,
    data: Seq<u8>,
    config: Option<ConfigView>,
    opts: CheckOptions,
) -> FileReport {
    report_for(path, line_count(data, opts.skip_whitespace) as usize, ignored_content(data), config, opts)
}

/// The warn and error limits and messages that apply to `path`.
pub fn resolve_limits(path: &str, config: Option<&Config>, opts: &CheckOptions) -> (r: (
    Option<usize>,
    Option<usize>,
    Option<String>,
    Option<String>,
))
    ensures
        r.0 == resolved_limits(path@, config_view(config), *opts).warn,
        r.1 == resolved_limits(path@, config_view(config), *opts).error,
        text_opt(r.2) == resolved_limits(path@, config_view(config), *opts).warn_message,
        text_opt(r.3) == resolved_limits(path@, config_view(config), *opts).error_message,
{
    if let Some(max) = opts.max_lines {
        return (Some(max), Some(max), None, None);
    }
    if let Some(cfg) = config {
        let stripped = without_dot_slash(path);
        let fname = file_name_of(path);
        let ghost rules = cfg@.rules;
        let mut i: usize = 0;
        assert(rules.skip(0) =~= rules);
        while i < cfg.rules.len()
            invariant
                i <= cfg.rules@.len(),
                rules == cfg@.rules,
                config_view(config) == Some(cfg@),
                opts.max_lines is None,
                rules.len() == cfg.rules@.len(),
                stripped@ == strip_dot_slash(path@),
                match fname {
                    Some(n) => path_file_name(path@) == Some(n@),
                    None => path_file_name(path@) is None,
                },
                matching_rule(rules, path@) == matching_rule(rules.skip(i as int), path@),
            decreases cfg.rules@.len() - i,
        {
            let rule = &cfg.rules[i];
            assert(rules.skip(i as int)[0] == rule@);
            assert(rules.skip(i as int).drop_first() =~= rules.skip(i + 1));
            let pat = rule.pattern.as_str();
            if pattern_is_valid(pat) {
                let on_path = pattern_matches(pat, stripped.as_str());
                let on_name = match &fname {
                    Some(n) => pattern_matches(pat, n.as_str()),
                    None => false,
                };
                if on_path || on_name {
                    return (
                        rule.warn,
                        rule.error,
                        clone_text_opt(&rule.warn_message),
                        clone_text_opt(&rule.error_message),
                    );
                }
            }
            i = i + 1;
        }
    }
    (opts.fallback_warn, opts.fallback_error, None, None)
}

/// Build the result for a file of `lines` lines at `path`.
pub fn build_result(
    path: &str,
    lines: usize,
    ignored: bool,
    config: Option<&Config>,
    opts: &CheckOptions,
) -> (r: FileResult)
    ensures
        r@ == report_for(path@, lines, ignored, config_view(config), *opts),
{
    if ignored {
        return FileResult {
            status: Status::Okay,
            lines,
            warn_limit: None,
            error_limit: None,
            message: None,
        };
    }
    let (warn_limit, error_limit, warn_message, error_message) = resolve_limits(path, config, opts);
    let over_error = match error_limit {
        Some(l) => lines > l,
        None => false,
    };
    let over_warn = match warn_limit {
        Some(l) => lines > l,
        None => false,
    };
    let status = if over_error {
        Status::Error
    } else if over_warn {
        Status::Warn
    } else {
        Status::Okay
    };
    let message = match status {
        Status::Error => error_message,
        Status::Warn => warn_message,
        Status::Okay => None,
    };
    FileResult { status, lines, warn_limit, error_limit, message }
}

/// Check in-memory content against the rule matching `path`, with no filesystem access.
///
/// `path` is used only for glob-pattern matching and need not exist on disk.
pub fn check_content(
    path: &str,
    content: &[u8],
    config: Option<&Config>,
    opts: &CheckOptions,
) -> (r: FileResult)
    ensures
        r@ == content_report(path@, content@, config_view(config), *opts),
{
    let (lines, ignored) = content_info_with_options(content, opts.skip_whitespace);
    build_result(path, lines, ignored, config, opts)
}

/// Check a file from the outcome of reading it: the bytes read, or the read
/// error's message, which comes back unchanged. Pass `None` for `config` to
/// fall back to the thresholds in `opts`.
pub fn check_file(
    path: &str,
    contents: Result<&[u8], String>,
    config: Option<&Config>,
    opts: &CheckOptions,
) -> (r: Result<FileResult, String>)
    ensures
        match contents {
            Ok(d) => r matches Ok(f) && f@ == content_report(path@, d@, config_view(config), *opts),
            Err(e) => r matches Err(m) && m@ == e@,
        },
{
    match contents {
        Ok(data) => Ok(check_content(path, data, config, opts)),
        Err(e) => Err(e),
    }
}

// ---------------------------------------------------------------- laws

/// Limits are exclusive: a file with exactly `n` lines is within a limit of
/// `n`, and one more line passes it.
pub proof fn lemma_limit_is_exclusive(n: usize)
    requires
        n < usize::MAX,
    ensures
        classify(n, Some(n), Some(n)) == Status::Okay,
        classify((n + 1) as usize, Some(n), Some(n)) == Status::Error,
        classify(n, Some(n), None) == Status::Okay,
        classify((n + 1) as usize, Some(n), None) == Status::Warn,
{
}

/// More lines never mean a lower status under the same limits.
pub proof fn lemma_status_monotone(fewer: usize, more: usize, warn: Option<usize>, error: Option<usize>)
    requires
        fewer <= more,
    ensures
        severity(classify(fewer, warn, error)) <= severity(classify(more, warn, error)),
{
}

/// What a status says about the limits: error means above the error limit;
/// warn means above the warn limit and not above the error limit; ok means
/// above neither. A message comes only with warn or error, and it is the
/// rule's message for that level.
pub proof fn lemma_report_consistent(
    path: Seq<char>,
    lines: usize,
    ignored: bool,
    config: Option<ConfigView>,
    opts: CheckOptions,
)
    ensures
        ({
            let r = report_for(path, lines, ignored, config, opts);
            let l = resolved_limits(path, config, opts);
            &&& r.lines == lines
            &&& r.status == Status::Error ==> exceeds(lines, r.error_limit)
            &&& r.status == Status::Warn ==> exceeds(lines, r.warn_limit) && !exceeds(lines, r.error_limit)
            &&& r.status == Status::Okay ==> !exceeds(lines, r.warn_limit) && !exceeds(lines, r.error_limit)
            &&& r.message is Some ==> r.status != Status::Okay
            &&& (!ignored && r.status == Status::Error) ==> r.message == l.error_message
            &&& (!ignored && r.status == Status::Warn) ==> r.message == l.warn_message
        }),
{
}

/// Ignored content is always ok, with no limits and no message, whatever
/// the config and options.
pub proof fn lemma_ignored_is_ok(path: Seq<char>, data: Seq<u8>, config: Option<ConfigView>, opts: CheckOptions)
    requires
        ignored_content(data),
    ensures
        content_report(path, data, config, opts).status == Status::Okay,
        content_report(path, data, config, opts).warn_limit is None,
        content_report(path, data, config, opts).error_limit is None,
        content_report(path, data, config, opts).message is None,
{
}

/// `max_lines` overrides every rule and preset: both limits become it, a
/// file is at error level exactly when it has more lines, never at warn
/// level, and no message is attached.
pub proof fn lemma_max_lines_overrides(
    path: Seq<char>,
    lines: usize,
    config: Option<ConfigView>,
    opts: CheckOptions,
    m: usize,
)
    requires
        opts.max_lines == Some(m),
    ensures
        report_for(path, lines, false, config, opts).warn_limit == Some(m),
        report_for(path, lines, false, config, opts).error_limit == Some(m),
        (report_for(path, lines, false, config, opts).status == Status::Error) == (lines > m),
        report_for(path, lines, false, config, opts).status != Status::Warn,
        report_for(path, lines, false, config, opts).message is None,
{
}

/// The first matching rule wins: when rule `i` applies and no rule before it
/// does, rule `i` is the one used.
pub proof fn lemma_first_match_wins(rules: Seq<RuleView>, path: Seq<char>, i: int)
    requires
        0 <= i < rules.len(),
        rule_applies(rules[i], path),
        forall|j: int| 0 <= j < i ==> !rule_applies(#[trigger] rules[j], path),
    ensures
        matching_rule(rules, path) == Some(rules[i]),
    decreases i,
{
    if i > 0 {
        assert(!rule_applies(rules[0], path));
        let rest = rules.drop_first();
        assert forall|j: int| 0 <= j < i - 1 implies !rule_applies(#[trigger] rest[j], path) by {
            assert(rest[j] == rules[j + 1]);
        }
        lemma_first_match_wins(rest, path, i - 1);
    }
}

/// When no rule applies (a rule whose pattern does not compile never does),
/// the fallback limits apply, without messages.
pub proof fn lemma_no_match_falls_back(path: Seq<char>, c: ConfigView, opts: CheckOptions)
    requires
        opts.max_lines is None,
        forall|j: int| 0 <= j < c.rules.len() ==> !rule_applies(#[trigger] c.rules[j], path),
    ensures
        resolved_limits(path, Some(c), opts) == (Limits {
            warn: opts.fallback_warn,
            error: opts.fallback_error,
            warn_message: None,
            error_message: None,
        }),
{
    lemma_no_rule_applies(c.rules, path);
}

proof fn lemma_no_rule_applies(rules: Seq<RuleView>, path: Seq<char>)
    requires
        forall|j: int| 0 <= j < rules.len() ==> !rule_applies(#[trigger] rules[j], path),
    ensures
        matching_rule(rules, path) is None,
    decreases rules.len(),
{
    if rules.len() > 0 {
        assert(!rule_applies(rules[0], path));
        let rest = rules.drop_first();
        assert forall|j: int| 0 <= j < rest.len() implies !rule_applies(#[trigger] rest[j], path) by {
            assert(rest[j] == rules[j + 1]);
        }
        lemma_no_rule_applies(rest, path);
    }
}

/// A rule whose pattern does not compile never applies.
pub proof fn lemma_invalid_rule_skipped(r: RuleView, path: Seq<char>)
    requires
        !glob_valid(r.pattern),
    ensures
        !rule_applies(r, path),
{
}

/// A matching config rule overrides the preset: when some rule applies and
/// `max_lines` is not set, the fallback limits make no difference.
pub proof fn lemma_rule_overrides_fallback(path: Seq<char>, c: ConfigView, a: CheckOptions, b: CheckOptions)
    requires
        a.max_lines is None,
        b.max_lines is None,
        matching_rule(c.rules, path) is Some,
    ensures
        resolved_limits(path, Some(c), a) == resolved_limits(path, Some(c), b),
{
}

/// Without a config the fallback limits apply, without messages.
pub proof fn lemma_no_config_uses_fallback(path: Seq<char>, opts: CheckOptions)
    requires
        opts.max_lines is None,
    ensures
        resolved_limits(path, None, opts) == (Limits {
            warn: opts.fallback_warn,
            error: opts.fallback_error,
            warn_message: None,
            error_message: None,
        }),
{
}


/// The first applying rule's limits are used as written: its warn limit as
/// the warn limit and its error limit as the error limit, each possibly
/// absent. A rule without an error limit never puts a file at error level,
/// however many lines it has.
pub proof fn lemma_rule_limits_used_as_written(
    path: Seq<char>,
    lines: usize,
    c: ConfigView,
    opts: CheckOptions,
    r: RuleView,
)
    requires
        opts.max_lines is None,
        matching_rule(c.rules, path) == Some(r),
    ensures
        resolved_limits(path, Some(c), opts).warn == r.warn,
        resolved_limits(path, Some(c), opts).error == r.error,
        report_for(path, lines, false, Some(c), opts).warn_limit == r.warn,
        report_for(path, lines, false, Some(c), opts).error_limit == r.error,
        r.error is None ==> report_for(path, lines, false, Some(c), opts).status != Status::Error,
        (r.error is None && r.warn is Some && lines > r.warn->0)
            ==> report_for(path, lines, false, Some(c), opts).status == Status::Warn,
{
}

} // verus!
