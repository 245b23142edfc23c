//! Per-language line-comment syntax, used when counting without full-line comments.
use vstd::prelude::*;
use crate::paths::{extension, extension_of, file_name_of, path_file_name};
use crate::text::chars_match;

verus! {

/// The single-line comment syntaxes that are recognized.
#[derive(Debug, Clone, Copy, PartialEq, Eq, Structural)]
pub enum CommentSyntax {
    /// `//`, as in Rust, C, Go, TypeScript.
    DoubleSlash,
    /// `#`, as in Python, shell, YAML.
    Hash,
}

/// Extensions whose languages write line comments with `//`.
pub open spec fn double_slash_extension(e: Seq<char>) -> bool {
    e == "rs"@
        || e == "js"@
        || e == "jsx"@
        || e == "mjs"@
        || e == "cjs"@
        || e == "ts"@
        || e == "tsx"@
        || e == "go"@
        || e == "java"@
        || e == "c"@
        || e == "h"@
        || e == "cpp"@
        || e == "cc"@
        || e == "cxx"@
        || e == "hpp"@
        || e == "hh"@
        || e == "cs"@
        || e == "kt"@
        || e == "kts"@
        || e == "swift"@
        || e == "scala"@
        || e == "dart"@
}

/// Extensions whose languages write line comments with `#`.
pub open spec fn hash_extension(e: Seq<char>) -> bool {
    e == "py"@
        || e == "rb"@
        || e == "sh"@
        || e == "bash"@
        || e == "zsh"@
        || e == "yml"@
        || e == "yaml"@
        || e == "toml"@
        || e == "pl"@
        || e == "r"@
        || e == "ex"@
        || e == "exs"@
}

/// The comment syntax for a file extension, if it is recognized.
pub open spec fn syntax_for_extension(e: Seq<char>) -> Option<CommentSyntax> {
    if double_slash_extension(e) {
        Some(CommentSyntax::DoubleSlash)
    } else if hash_extension(e) {
        Some(CommentSyntax::Hash)
    } else {
        None
    }
}

/// The comment syntax for a file name, going by its extension.
pub open spec fn syntax_for_file_name(name: Seq<char>) -> Option<CommentSyntax> {
    match extension_of(name) {
        Some(e) => syntax_for_extension(e),
        None => None,
    }
}

/// The comment syntax for a path, going by its file name's extension.
pub open spec fn syntax_for_path(path: Seq<char>) -> Option<CommentSyntax> {
    match path_file_name(path) {
        Some(n) => syntax_for_file_name(n),
        None => None,
    }
}

/// The text of a comment prefix.
pub open spec fn comment_text(s: CommentSyntax) -> Seq<char> {
    match s {
        CommentSyntax::DoubleSlash => seq!['/', '/'],
        CommentSyntax::Hash => seq!['#'],
    }
}

/// The bytes of a comment prefix.
pub open spec fn comment_bytes(s: CommentSyntax) -> Seq<u8> {
    match s {
        CommentSyntax::DoubleSlash => seq![47u8, 47u8],
        CommentSyntax::Hash => seq![35u8],
    }
}

fn is_double_slash_extension(e: &Vec<char>) -> (r: bool)
    ensures
        r == double_slash_extension(e@),
{
    chars_match(e, "rs")
        || chars_match(e, "js")
        || chars_match(e, "jsx")
        || chars_match(e, "mjs")
        || chars_match(e, "cjs")
        || chars_match(e, "ts")
        || chars_match(e, "tsx")
        || chars_match(e, "go")
        || chars_match(e, "java")
        || chars_match(e, "c")
        || chars_match(e, "h")
        || chars_match(e, "cpp")
        || chars_match(e, "cc")
        || chars_match(e, "cxx")
        || chars_match(e, "hpp")
        || chars_match(e, "hh")
        || chars_match(e, "cs")
        || chars_match(e, "kt")
        || chars_match(e, "kts")
        || chars_match(e, "swift")
        || chars_match(e, "scala")
        || chars_match(e, "dart")
}

fn is_hash_extension(e: &Vec<char>) -> (r: bool)
    ensures
        r == hash_extension(e@),
{
    chars_match(e, "py")
        || chars_match(e, "rb")
        || chars_match(e, "sh")
        || chars_match(e, "bash")
        || chars_match(e, "zsh")
        || chars_match(e, "yml")
        || chars_match(e, "yaml")
        || chars_match(e, "toml")
        || chars_match(e, "pl")
        || chars_match(e, "r")
        || chars_match(e, "ex")
        || chars_match(e, "exs")
}

/// The comment syntax for the file name `name`, by its extension.
pub fn syntax_of_file_name(name: &str) -> (r: Option<CommentSyntax>)
    ensures
        r == syntax_for_file_name(name@),
{
    match extension(name) {
        None => None,
        Some(e) => {
            if is_double_slash_extension(&e) {
                Some(CommentSyntax::DoubleSlash)
            } else if is_hash_extension(&e) {
                Some(CommentSyntax::Hash)
            } else {
                None
            }
        },
    }
}

/// The comment syntax for `path`, by its file name's extension.
pub fn syntax_of_path(path: &str) -> (r: Option<CommentSyntax>)
    ensures
        r == syntax_for_path(path@),
{
    match file_name_of(path) {
        None => None,
        Some(n) => syntax_of_file_name(n.as_str()),
    }
}

/// The prefix text of a comment syntax.
pub fn prefix_text(s: CommentSyntax) -> (r: &'static str)
    ensures
        r@ == comment_text(s),
{
    match s {
        CommentSyntax::DoubleSlash => {
            proof {
                reveal_strlit("//");
            }
            "//"
        },
        CommentSyntax::Hash => {
            proof {
                reveal_strlit("#");
            }
            "#"
        },
    }
}

/// The prefix bytes of a comment syntax.
pub fn prefix_bytes(s: CommentSyntax) -> (r: Vec<u8>)
    ensures
        r@ == comment_bytes(s),
{
    match s {
        CommentSyntax::DoubleSlash => {
            let v = vec![47u8, 47u8];
            assert(v@ =~= comment_bytes(s));
            v
        },
        CommentSyntax::Hash => {
            let v = vec![35u8];
            assert(v@ =~= comment_bytes(s));
            v
        },
    }
}

/// The line-comment prefix for a file name's extension, if recognized.
pub fn comment_prefix_for_file_name(name: &str) -> (r: Option<&'static str>)
    ensures
        match syntax_for_file_name(name@) {
            Some(s) => r is Some && r->0@ == comment_text(s),
            None => r is None,
        },
{
    match syntax_of_file_name(name) {
        Some(s) => Some(prefix_text(s)),
        None => None,
    }
}

/// Returns the single-line comment prefix for `path`'s extension, if recognized.
///
/// Only languages with a `//`- or `#`-style line comment are covered; block
/// comments (`/* */`) are out of scope since a full-line-comment check can't
/// tell where a block comment ends without parsing the file.
pub fn line_comment_prefix(path: &str) -> (r: Option<&'static str>)
    ensures
        match syntax_for_path(path@) {
            Some(s) => r is Some && r->0@ == comment_text(s),
            None => r is None,
        },
{
    match syntax_of_path(path) {
        Some(s) => Some(prefix_text(s)),
        None => None,
    }
}

} // verus!
