//! Built-in strictness presets.
use vstd::prelude::*;

verus! {

/// Built-in strictness presets applied when no config rule matches a file.
#[derive(Debug, Clone, Copy, PartialEq, Eq, Structural)]
pub enum Preset {
    Strict,
    Default,
    Loose,
    Free,
}

/// Warn limit applied when no config is found anywhere.
pub const DEFAULT_WARN: usize = 200;

/// Error limit applied when no config is found anywhere.
pub const DEFAULT_ERROR: usize = 400;

/// The `(warn, error)` limits of a preset; `None` means unlimited.
pub open spec fn preset_limits(p: Preset) -> (Option<usize>, Option<usize>) {
    match p {
        Preset::Strict => (Some(100), Some(100)),
        Preset::Default => (Some(DEFAULT_WARN), Some(DEFAULT_ERROR)),
        Preset::Loose => (Some(400), Some(400)),
        Preset::Free => (None, None),
    }
}

impl Preset {
    /// Returns `(warn_limit, error_limit)`; `None` means unlimited.
    pub fn limits(self) -> (r: (Option<usize>, Option<usize>))
        ensures
            r == preset_limits(self),
    {
        match self {
            Preset::Strict => (Some(100), Some(100)),
            Preset::Default => (Some(DEFAULT_WARN), Some(DEFAULT_ERROR)),
            Preset::Loose => (Some(400), Some(400)),
            Preset::Free => (None, None),
        }
    }
}

/// Every preset either limits both levels, with the warn limit not above
/// the error limit, or (the free preset alone) limits neither.
pub proof fn lemma_preset_limits_ordered(p: Preset)
    ensures
        match preset_limits(p) {
            (Some(w), Some(e)) => w <= e && p != Preset::Free,
            (None, None) => p == Preset::Free,
            _ => false,
        },
{
}

} // verus!
