//! Which walked paths to skip: hidden entries and paths excluded by glob patterns.
use vstd::prelude::*;
use crate::paths::{
    file_name_of, glob_path, path_file_name, path_strip_prefix, relative_to, strip_dot_slash,
    without_dot_slash,
};
use crate::text::chars_of;
use crate::patterns::{glob_match, glob_valid, pattern_is_valid, pattern_matches};

verus! {

/// A hidden entry: its name starts with `.` and is longer than `.` alone.
pub open spec fn hidden_name(name: Seq<char>) -> bool {
    name.len() > 1 && name[0] == '.'
}

/// Whether `path` names a hidden entry (its file name is a hidden name).
pub open spec fn is_hidden_path(path: Seq<char>) -> bool {
    path_file_name(path) matches Some(n) && hidden_name(n)
}

/// Whether the file name of `path` starts with `.` and has more after it.
pub fn is_hidden(path: &str) -> (r: bool)
    ensures
        r == is_hidden_path(path@),
{
    match file_name_of(path) {
        Some(n) => {
            let cs = chars_of(n.as_str());
            cs.len() > 1 && cs[0] == '.'
        },
        None => false,
    }
}

/// Some valid pattern among `patterns` matches `text`.
pub open spec fn any_pattern_matches(patterns: Seq<Seq<char>>, text: Seq<char>) -> bool {
    exists|i: int| 0 <= i < patterns.len() && glob_valid(#[trigger] patterns[i]) && glob_match(patterns[i], text)
}

/// A path is excluded when a valid pattern matches its text relative to the
/// walk root (when there is a root and the path lies under it), or its text
/// with one leading `./` removed, or its text as is. Patterns that do not
/// compile are skipped.
pub open spec fn excluded_path(path: Seq<char>, root: Option<Seq<char>>, patterns: Seq<Seq<char>>) -> bool {
    ||| (root matches Some(b) && path_strip_prefix(path, b) matches Some(rel)
        && any_pattern_matches(patterns, rel))
    ||| any_pattern_matches(patterns, strip_dot_slash(path))
    ||| any_pattern_matches(patterns, path)
}

/// Some valid pattern among `patterns` matches `text`.
fn matches_any(patterns: &[String], text: &str) -> (r: bool)
    ensures
        r == any_pattern_matches(patterns@.map_values(|s: String| s@), text@),
{
    let ghost ps = patterns@.map_values(|s: String| s@);
    let mut i: usize = 0;
    while i < patterns.len()
        invariant
            i <= patterns@.len(),
            ps == patterns@.map_values(|s: String| s@),
            forall|j: int| 0 <= j < i ==> !(glob_valid(#[trigger] ps[j]) && glob_match(ps[j], text@)),
        decreases patterns@.len() - i,
    {
        let p = patterns[i].as_str();
        assert(ps[i as int] == p@);
        if pattern_is_valid(p) && pattern_matches(p, text) {
            return true;
        }
        i = i + 1;
    }
    false
}

/// Whether `path` is excluded by `patterns`, matching relative to `root` when
/// one is given (the walk root of a directory argument).
pub fn excluded(path: &str, root: Option<&str>, patterns: &[String]) -> (r: bool)
    ensures
        r == excluded_path(
            path@,
            match root { Some(b) => Some(b@), None => None },
            patterns@.map_values(|s: String| s@),
        ),
{
    if let Some(base) = root {
        if let Some(rel) = relative_to(path, base) {
            let s = glob_path(rel.as_str());
            if matches_any(patterns, s.as_str()) {
                return true;
            }
        }
    }
    let s = glob_path(path);
    let n = without_dot_slash(s.as_str());
    matches_any(patterns, n.as_str()) || matches_any(patterns, s.as_str())
}

} // verus!
