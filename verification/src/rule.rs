//! The [`Rule`] type: a single pattern/limit pair from a config file.
use vstd::prelude::*;
use crate::result::{clone_text_opt, text_opt};

verus! {

/// A single pattern/limit pair inside a [`crate::config::Config`].
#[derive(Debug, Clone, PartialEq, Eq)]
pub struct Rule {
    /// Glob pattern matched against file paths (e.g. `"**/*.rs"`).
    pub pattern: String,
    /// Line count above which a warning is emitted. `None` means no warn limit.
    pub warn: Option<usize>,
    /// Message printed alongside a warn violation. `None` means no message.
    pub warn_message: Option<String>,
    /// Line count above which an error is emitted. `None` means no error limit.
    pub error: Option<usize>,
    /// Message printed alongside an error violation. `None` means no message.
    pub error_message: Option<String>,
}

/// The abstract content of a [`Rule`], its texts as character sequences.
pub ghost struct RuleView {
    pub pattern: Seq<char>,
    pub warn: Option<usize>,
    pub warn_message: Option<Seq<char>>,
    pub error: Option<usize>,
    pub error_message: Option<Seq<char>>,
}

impl View for Rule {
    type V = RuleView;

    open spec fn view(&self) -> RuleView {
        RuleView {
            pattern: self.pattern@,
            warn: self.warn,
            warn_message: text_opt(self.warn_message),
            error: self.error,
            error_message: text_opt(self.error_message),
        }
    }
}

impl Rule {
    /// A copy of the rule with the same content.
    pub fn duplicate(&self) -> (r: Rule)
        ensures
            r@ == self@,
    {
        Rule {
            pattern: self.pattern.clone(),
            warn: self.warn,
            warn_message: clone_text_opt(&self.warn_message),
            error: self.error,
            error_message: clone_text_opt(&self.error_message),
        }
    }
}

} // verus!
