//! Path text helpers: file names, extensions, relative paths, the `./` prefix.
use vstd::prelude::*;
use crate::text::{chars_of, push_char};

verus! {

/// What `std::path::Path::file_name` (then `OsStr::to_str`) gives for the
/// path whose text is `path`.
pub uninterp spec fn path_file_name(path: Seq<char>) -> Option<Seq<char>>;

/// Calls `std::path::Path::new(path).file_name()` and converts the name to a
/// `String`. The contract claims only that the result is `path_file_name` of
/// the text.
#[verifier::external_body]
pub(crate) fn file_name_of(path: &str) -> (r: Option<String>)
    ensures
        match r {
            Some(n) => path_file_name(path@) == Some(n@),
            None => path_file_name(path@) is None,
        },
{
    std::path::Path::new(path).file_name().and_then(|f| f.to_str()).map(|f| f.to_string())
}

/// What `std::path::Path::strip_prefix` gives for the path with text `path`
/// and the base with text `base` (rendered back to text), or `None` when
/// `base` is not a leading run of whole components of `path`.
pub uninterp spec fn path_strip_prefix(path: Seq<char>, base: Seq<char>) -> Option<Seq<char>>;

/// Calls `std::path::Path::new(path).strip_prefix(base)` and renders the
/// relative path as text (`to_string_lossy`; both inputs are UTF-8, so nothing
/// is lost). The contract claims only that the result is `path_strip_prefix`
/// of the two texts.
#[verifier::external_body]
pub(crate) fn relative_to(path: &str, base: &str) -> (r: Option<String>)
    ensures
        match r {
            Some(t) => path_strip_prefix(path@, base@) == Some(t@),
            None => path_strip_prefix(path@, base@) is None,
        },
{
    std::path::Path::new(path).strip_prefix(base).ok().map(|p| p.to_string_lossy().into_owned())
}

/// Index of the last `.` in `name`, or `-1` when there is none.
pub open spec fn last_dot(name: Seq<char>) -> int
    decreases name.len(),
{
    if name.len() == 0 {
        -1
    } else if name.last() == '.' {
        name.len() - 1
    } else {
        last_dot(name.drop_last())
    }
}

/// The extension of a file name, as `Path::extension` defines it: the text
/// after the last `.`, absent when there is no `.` or the only `.` leads the name.
pub open spec fn extension_of(name: Seq<char>) -> Option<Seq<char>> {
    let k = last_dot(name);
    if k <= 0 {
        None
    } else {
        Some(name.skip(k + 1))
    }
}

/// The extension of the file name `name` (see [`extension_of`]).
pub fn extension(name: &str) -> (r: Option<Vec<char>>)
    ensures
        match r {
            Some(e) => extension_of(name@) == Some(e@),
            None => extension_of(name@) is None,
        },
{
    let cs = chars_of(name);
    let mut k: usize = cs.len();
    assert(name@.take(k as int) =~= name@);
    // scan backwards for the last '.'
    while k > 0 && cs[k - 1] != '.'
        invariant
            cs@ == name@,
            k <= cs@.len(),
            last_dot(name@) == last_dot(name@.take(k as int)),
        decreases k,
    {
        assert(name@.take(k as int).drop_last() =~= name@.take(k - 1));
        k = k - 1;
    }
    proof {
        if k > 0 {
            assert(name@.take(k as int).last() == '.');
        } else {
            assert(name@.take(0) =~= Seq::<char>::empty());
        }
    }
    if k <= 1 {
        return None;
    }
    let mut out: Vec<char> = Vec::new();
    let mut i = k;
    while i < cs.len()
        invariant
            cs@ == name@,
            k <= i <= cs@.len(),
            out@ == name@.subrange(k as int, i as int),
        decreases cs@.len() - i,
    {
        assert(name@.subrange(k as int, i + 1) =~= name@.subrange(k as int, i as int).push(name@[i as int]));
        out.push(cs[i]);
        i = i + 1;
    }
    assert(out@ =~= name@.skip(k as int));
    Some(out)
}

/// `p` with one leading `./` removed, if it has one.
pub open spec fn strip_dot_slash(p: Seq<char>) -> Seq<char> {
    if p.len() >= 2 && p[0] == '.' && p[1] == '/' {
        p.skip(2)
    } else {
        p
    }
}

/// Removes one leading `./` from `path`.
pub fn without_dot_slash(path: &str) -> (r: String)
    ensures
        r@ == strip_dot_slash(path@),
{
    let cs = chars_of(path);
    let start: usize = if cs.len() >= 2 && cs[0] == '.' && cs[1] == '/' { 2 } else { 0 };
    let mut out = String::new();
    let mut i = start;
    while i < cs.len()
        invariant
            cs@ == path@,
            start <= i <= cs@.len(),
            out@ == path@.subrange(start as int, i as int),
        decreases cs@.len() - i,
    {
        assert(path@.subrange(start as int, i + 1) =~= path@.subrange(start as int, i as int).push(path@[i as int]));
        push_char(&mut out, cs[i]);
        i = i + 1;
    }
    assert(out@ =~= strip_dot_slash(path@));
    out
}

/// The text used when matching `path` against a glob pattern: the path text
/// unchanged. Patterns are written with `/`; on systems whose separator is
/// `\`, callers hand in path text already converted to `/` (the command does
/// so when it renders a path).
pub fn glob_path(path: &str) -> (r: String)
    ensures
        r@ == path@,
{
    path.to_owned()
}

} // verus!
