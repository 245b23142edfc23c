//! Command-line options, as plain values, and how they select limits.
use vstd::prelude::*;
use crate::checker::CheckOptions;
use crate::preset::{preset_limits, Preset, DEFAULT_ERROR, DEFAULT_WARN};

verus! {

/// The command-line options.
#[derive(Debug, Clone, PartialEq, Eq)]
pub struct Args {
    /// Files or directories to check.
    pub paths: Vec<String>,
    /// Override line limit for all files.
    pub max_lines: Option<usize>,
    /// Path to config file.
    pub config: String,
    /// Show all files with their line counts and usage percentage.
    pub status: bool,
    /// Output results as JSON.
    pub json: bool,
    /// Preset: 100 lines (warn=error).
    pub strict: bool,
    /// Preset: 200/400 lines (warn/error).
    pub default_preset: bool,
    /// Preset: 400 lines (warn=error).
    pub loose: bool,
    /// Preset: unlimited (disable all limits).
    pub free: bool,
}

/// The preset the flags select: the first set among strict, default, loose, free.
pub open spec fn selected_preset(strict: bool, default_preset: bool, loose: bool, free: bool) -> Option<Preset> {
    if strict {
        Some(Preset::Strict)
    } else if default_preset {
        Some(Preset::Default)
    } else if loose {
        Some(Preset::Loose)
    } else if free {
        Some(Preset::Free)
    } else {
        None
    }
}

/// The fallback `(warn, error)` limits the flags select: the selected
/// preset's, or 200/400 when no preset flag is set.
pub open spec fn fallback_for(a: Args) -> (Option<usize>, Option<usize>) {
    match selected_preset(a.strict, a.default_preset, a.loose, a.free) {
        Some(p) => preset_limits(p),
        None => (Some(DEFAULT_WARN), Some(DEFAULT_ERROR)),
    }
}

impl Args {
    /// The preset selected by the flags, if any.
    pub fn preset(&self) -> (r: Option<Preset>)
        ensures
            r == selected_preset(self.strict, self.default_preset, self.loose, self.free),
    {
        if self.strict {
            Some(Preset::Strict)
        } else if self.default_preset {
            Some(Preset::Default)
        } else if self.loose {
            Some(Preset::Loose)
        } else if self.free {
            Some(Preset::Free)
        } else {
            None
        }
    }

    /// Resolve the selected preset (if any) into fallback warn/error limits.
    pub fn fallback_limits(&self) -> (r: (Option<usize>, Option<usize>))
        ensures
            r == fallback_for(*self),
    {
        match self.preset() {
            Some(p) => p.limits(),
            None => (Some(DEFAULT_WARN), Some(DEFAULT_ERROR)),
        }
    }

    /// The check options the flags ask for: `--max-lines` and the fallback limits.
    pub fn check_options(&self) -> (r: CheckOptions)
        ensures
            r.max_lines == self.max_lines,
            (r.fallback_warn, r.fallback_error) == fallback_for(*self),
            !r.skip_whitespace,
    {
        let (fallback_warn, fallback_error) = self.fallback_limits();
        CheckOptions { max_lines: self.max_lines, fallback_warn, fallback_error, skip_whitespace: false }
    }
}

/// Without a preset flag the built-in defaults apply: warn above 200 lines,
/// error above 400.
pub proof fn lemma_no_preset_defaults(a: Args)
    requires
        !a.strict && !a.default_preset && !a.loose && !a.free,
    ensures
        fallback_for(a) == (Some(200usize), Some(400usize)),
{
}


/// Each preset flag set alone selects its own preset: `--strict` 100/100,
/// `--default` 200/400, `--loose` 400/400, `--free` no limits.
pub proof fn lemma_each_flag_selects_its_preset(a: Args)
    ensures
        (a.strict && !a.default_preset && !a.loose && !a.free) ==> fallback_for(a) == (Some(100usize), Some(100usize)),
        (!a.strict && a.default_preset && !a.loose && !a.free) ==> fallback_for(a) == (Some(200usize), Some(400usize)),
        (!a.strict && !a.default_preset && a.loose && !a.free) ==> fallback_for(a) == (Some(400usize), Some(400usize)),
        (!a.strict && !a.default_preset && !a.loose && a.free) ==> fallback_for(a) == (None::<usize>, None::<usize>),
        (!a.strict && a.default_preset && !a.loose && !a.free) ==> selected_preset(a.strict, a.default_preset, a.loose, a.free) == Some(Preset::Default),
        (a.strict && !a.default_preset && !a.loose && !a.free) ==> selected_preset(a.strict, a.default_preset, a.loose, a.free) == Some(Preset::Strict),
        (!a.strict && !a.default_preset && a.loose && !a.free) ==> selected_preset(a.strict, a.default_preset, a.loose, a.free) == Some(Preset::Loose),
        (!a.strict && !a.default_preset && !a.loose && a.free) ==> selected_preset(a.strict, a.default_preset, a.loose, a.free) == Some(Preset::Free),
{
}

} // verus!
