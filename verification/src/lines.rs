//! Low-level line counting and inline-ignore detection.
//!
//! The model: a byte buffer splits on `\n` into pieces ([`split_pieces`]); its
//! *lines* ([`lines_of`]) are those pieces, minus the empty piece that a
//! trailing newline leaves behind. Every counting function here counts some
//! subset of those lines.
use vstd::prelude::*;
use vstd::slice::slice_subrange;
use crate::comments::{comment_bytes, prefix_bytes, syntax_for_path, syntax_of_path, CommentSyntax};

verus! {

/// The newline byte.
pub open spec fn nl() -> u8 {
    10u8
}

/// What `u8::is_ascii_whitespace` accepts: space, tab, line feed, form feed, carriage return.
pub open spec fn is_ws(b: u8) -> bool {
    b == 32u8 || b == 9u8 || b == 10u8 || b == 12u8 || b == 13u8
}

/// The pieces of `d` between `\n` bytes, as `<[u8]>::split` yields them.
pub open spec fn split_pieces(d: Seq<u8>) -> Seq<Seq<u8>>
    decreases d.len(),
{
    if d.len() == 0 {
        seq![Seq::<u8>::empty()]
    } else {
        let p = split_pieces(d.drop_last());
        if d.last() == nl() {
            p.push(Seq::<u8>::empty())
        } else {
            p.update(p.len() - 1, p.last().push(d.last()))
        }
    }
}

/// The logical lines of `d`: a trailing newline ends the last line rather
/// than starting an empty one, and an empty buffer has no lines.
pub open spec fn lines_of(d: Seq<u8>) -> Seq<Seq<u8>> {
    if d.len() == 0 {
        Seq::empty()
    } else if d.last() == nl() {
        split_pieces(d).drop_last()
    } else {
        split_pieces(d)
    }
}

/// Number of `\n` bytes in `d`.
pub open spec fn newline_total(d: Seq<u8>) -> nat
    decreases d.len(),
{
    if d.len() == 0 {
        0
    } else {
        newline_total(d.drop_last()) + if d.last() == nl() { 1nat } else { 0nat }
    }
}

/// Line count as `count_newlines` defines it: one per newline, plus one for
/// a final line that has no newline after it.
pub open spec fn newline_line_count(d: Seq<u8>) -> nat {
    if d.len() == 0 {
        0
    } else if d.last() == nl() {
        newline_total(d)
    } else {
        newline_total(d) + 1
    }
}

/// A line that is empty or holds only ASCII whitespace.
pub open spec fn is_blank(line: Seq<u8>) -> bool {
    forall|i: int| 0 <= i < line.len() ==> is_ws(#[trigger] line[i])
}

/// `line` with its leading ASCII whitespace removed.
pub open spec fn trim_leading(line: Seq<u8>) -> Seq<u8>
    decreases line.len(),
{
    if line.len() > 0 && is_ws(line[0]) {
        trim_leading(line.drop_first())
    } else {
        line
    }
}

/// `s` begins with `prefix`.
pub open spec fn starts_with(s: Seq<u8>, prefix: Seq<u8>) -> bool {
    prefix.len() <= s.len() && s.take(prefix.len() as int) == prefix
}

/// A full-line comment: after leading whitespace, the line starts with `prefix`.
pub open spec fn is_comment_line(line: Seq<u8>, prefix: Seq<u8>) -> bool {
    starts_with(trim_leading(line), prefix)
}

/// Which lines a count keeps.
pub enum LineFilter {
    /// Every line.
    All,
    /// Lines that are not blank.
    NonBlank,
    /// Lines that are not full-line comments in this syntax.
    NonComment(CommentSyntax),
}

/// Whether `filter` keeps `line`.
pub open spec fn keeps(filter: LineFilter, line: Seq<u8>) -> bool {
    match filter {
        LineFilter::All => true,
        LineFilter::NonBlank => !is_blank(line),
        LineFilter::NonComment(c) => !is_comment_line(line, comment_bytes(c)),
    }
}

/// How many of `ls` the filter keeps.
pub open spec fn kept_count(ls: Seq<Seq<u8>>, filter: LineFilter) -> nat
    decreases ls.len(),
{
    if ls.len() == 0 {
        0
    } else {
        kept_count(ls.drop_last(), filter) + if keeps(filter, ls.last()) { 1nat } else { 0nat }
    }
}

/// The bytes of the inline-ignore marker (the word `linecheck`, a colon, the word `ignore`).
pub open spec fn ignore_marker() -> Seq<u8> {
    seq![108u8, 105u8, 110u8, 101u8, 99u8, 104u8, 101u8, 99u8, 107u8, 58u8,
         105u8, 103u8, 110u8, 111u8, 114u8, 101u8]
}

/// `needle` occurs somewhere in `hay` as a contiguous run.
pub open spec fn contains_run(hay: Seq<u8>, needle: Seq<u8>) -> bool {
    exists|i: int| 0 <= i && i + needle.len() <= hay.len()
        && #[trigger] hay.subrange(i, i + needle.len()) == needle
}

// ---------------------------------------------------------------- lemmas

proof fn lemma_split_nonempty(d: Seq<u8>)
    ensures
        split_pieces(d).len() >= 1,
        split_pieces(d).len() == newline_total(d) + 1,
    decreases d.len(),
{
    if d.len() > 0 {
        lemma_split_nonempty(d.drop_last());
    }
}

proof fn lemma_kept_push(ls: Seq<Seq<u8>>, x: Seq<u8>, filter: LineFilter)
    ensures
        kept_count(ls.push(x), filter) == kept_count(ls, filter) + if keeps(filter, x) { 1nat } else { 0nat },
{
    assert(ls.push(x).drop_last() =~= ls);
}

proof fn lemma_kept_le_len(ls: Seq<Seq<u8>>, filter: LineFilter)
    ensures
        kept_count(ls, filter) <= ls.len(),
    decreases ls.len(),
{
    if ls.len() > 0 {
        lemma_kept_le_len(ls.drop_last(), filter);
    }
}

proof fn lemma_kept_all(ls: Seq<Seq<u8>>)
    ensures
        kept_count(ls, LineFilter::All) == ls.len(),
    decreases ls.len(),
{
    if ls.len() > 0 {
        lemma_kept_all(ls.drop_last());
    }
}

/// The last piece of `split_pieces(d.take(i + 1))` and the pieces before it,
/// in terms of those of `d.take(i)`.
proof fn lemma_split_step(d: Seq<u8>, i: int)
    requires
        0 <= i < d.len(),
    ensures
        d[i] == nl() ==> split_pieces(d.take(i + 1)) == split_pieces(d.take(i)).push(Seq::<u8>::empty()),
        d[i] != nl() ==> split_pieces(d.take(i + 1)).drop_last() == split_pieces(d.take(i)).drop_last(),
        d[i] != nl() ==> split_pieces(d.take(i + 1)).last() == split_pieces(d.take(i)).last().push(d[i]),
{
    let t = d.take(i + 1);
    assert(t.drop_last() =~= d.take(i));
    assert(t.last() == d[i]);
    lemma_split_nonempty(d.take(i));
    let p = split_pieces(d.take(i));
    if d[i] != nl() {
        assert(split_pieces(t) == p.update(p.len() - 1, p.last().push(d[i])));
        assert(split_pieces(t).drop_last() =~= p.drop_last());
    }
}

// ---------------------------------------------------------------- exec

/// `u8::is_ascii_whitespace`.
pub fn is_ascii_ws(b: u8) -> (r: bool)
    ensures
        r == is_ws(b),
{
    b == 32u8 || b == 9u8 || b == 10u8 || b == 12u8 || b == 13u8
}

/// Count logical lines in raw file bytes.
///
/// A file with no trailing newline has its last line counted anyway, so
/// `"hello\nworld"` returns 2 just like `"hello\nworld\n"`.
pub fn count_newlines(data: &[u8]) -> (r: usize)
    ensures
        r == newline_line_count(data@),
        r == lines_of(data@).len(),
{
    let n = data.len();
    let mut newlines: usize = 0;
    let mut i: usize = 0;
    while i < n
        invariant
            n == data@.len(),
            i <= n,
            newlines == newline_total(data@.take(i as int)),
            newlines <= i,
        decreases n - i,
    {
        assert(data@.take(i + 1).drop_last() =~= data@.take(i as int));
        if data[i] == 10u8 {
            newlines = newlines + 1;
        }
        i = i + 1;
    }
    assert(data@.take(n as int) =~= data@);
    proof {
        lemma_split_nonempty(data@);
        if n > 0 && data@.last() != nl() {
            assert(data@.drop_last().len() < n);
            lemma_newline_bound(data@.drop_last());
            assert(data@.drop_last() =~= data@.take(n - 1));
        }
    }
    if n == 0 {
        0
    } else if data[n - 1] == 10u8 {
        newlines
    } else {
        newlines + 1
    }
}

proof fn lemma_newline_bound(d: Seq<u8>)
    ensures
        newline_total(d) <= d.len(),
    decreases d.len(),
{
    if d.len() > 0 {
        lemma_newline_bound(d.drop_last());
    }
}

/// Whether the filter keeps `line`.
pub fn line_kept(filter: &LineFilter, line: &[u8]) -> (r: bool)
    ensures
        r == keeps(*filter, line@),
{
    match filter {
        LineFilter::All => true,
        LineFilter::NonBlank => !all_whitespace(line),
        LineFilter::NonComment(c) => {
            let p = prefix_bytes(*c);
            !starts_with_bytes(trim_start(line), p.as_slice())
        },
    }
}

/// Every byte of `line` is ASCII whitespace.
pub fn all_whitespace(line: &[u8]) -> (r: bool)
    ensures
        r == is_blank(line@),
{
    let mut i: usize = 0;
    while i < line.len()
        invariant
            i <= line@.len(),
            forall|j: int| 0 <= j < i ==> is_ws(#[trigger] line@[j]),
        decreases line@.len() - i,
    {
        if !is_ascii_ws(line[i]) {
            return false;
        }
        i = i + 1;
    }
    true
}

/// `line` with its leading ASCII whitespace removed.
pub fn trim_start(line: &[u8]) -> (r: &[u8])
    ensures
        r@ == trim_leading(line@),
{
    let mut start: usize = 0;
    assert(line@.skip(0) =~= line@);
    while start < line.len() && is_ascii_ws(line[start])
        invariant
            start <= line@.len(),
            trim_leading(line@.skip(start as int)) == trim_leading(line@),
        decreases line@.len() - start,
    {
        assert(line@.skip(start as int).drop_first() =~= line@.skip(start + 1));
        start = start + 1;
    }
    proof {
        let rest = line@.skip(start as int);
        if rest.len() > 0 {
            assert(rest[0] == line@[start as int]);
        }
    }
    slice_subrange(line, start, line.len())
}

/// `s` begins with `prefix`.
pub fn starts_with_bytes(s: &[u8], prefix: &[u8]) -> (r: bool)
    ensures
        r == starts_with(s@, prefix@),
{
    if prefix.len() > s.len() {
        return false;
    }
    let mut i: usize = 0;
    while i < prefix.len()
        invariant
            prefix@.len() <= s@.len(),
            i <= prefix@.len(),
            forall|j: int| 0 <= j < i ==> s@[j] == prefix@[j],
        decreases prefix@.len() - i,
    {
        if s[i] != prefix[i] {
            assert(s@.take(prefix@.len() as int)[i as int] != prefix@[i as int]);
            return false;
        }
        i = i + 1;
    }
    assert(s@.take(prefix@.len() as int) =~= prefix@);
    true
}

/// Count the lines of `data` that `filter` keeps.
pub fn count_kept_lines(data: &[u8], filter: &LineFilter) -> (r: usize)
    ensures
        r == kept_count(lines_of(data@), *filter),
{
    let n = data.len();
    let mut count: usize = 0;
    let mut start: usize = 0;
    let mut i: usize = 0;
    proof {
        assert(data@.take(0) =~= Seq::<u8>::empty());
        assert(data@.subrange(0, 0) =~= Seq::<u8>::empty());
    }
    while i < n
        invariant
            n == data@.len(),
            start <= i <= n,
            split_pieces(data@.take(i as int)).last() == data@.subrange(start as int, i as int),
            count == kept_count(split_pieces(data@.take(i as int)).drop_last(), *filter),
            count <= start,
            start == 0 || data@[start - 1] == nl(),
        decreases n - i,
    {
        proof {
            lemma_split_step(data@, i as int);
            lemma_split_nonempty(data@.take(i as int));
        }
        if data[i] == 10u8 {
            let line = slice_subrange(data, start, i);
            let kept = line_kept(filter, line);
            proof {
                let p = split_pieces(data@.take(i as int));
                assert(p.drop_last().push(p.last()) =~= p);
                lemma_kept_push(p.drop_last(), p.last(), *filter);
                assert(split_pieces(data@.take(i + 1)).drop_last() =~= p);
                assert(data@.subrange(i + 1, i + 1) =~= Seq::<u8>::empty());
            }
            if kept {
                count = count + 1;
            }
            start = i + 1;
        } else {
            assert(data@.subrange(start as int, i + 1) =~= data@.subrange(start as int, i as int).push(data@[i as int]));
        }
        i = i + 1;
    }
    assert(data@.take(n as int) =~= data@);
    if n == 0 {
        return 0;
    }
    if data[n - 1] == 10u8 {
        count
    } else {
        let line = slice_subrange(data, start, n);
        let kept = line_kept(filter, line);
        proof {
            let p = split_pieces(data@);
            lemma_split_nonempty(data@);
            assert(p.drop_last().push(p.last()) =~= p);
            lemma_kept_push(p.drop_last(), p.last(), *filter);
        }
        if kept {
            count + 1
        } else {
            count
        }
    }
}

/// Byte order marks that `content_inspector` takes as a sign of text.
pub open spec fn has_bom(d: Seq<u8>) -> bool {
    ||| starts_with(d, seq![0xEFu8, 0xBBu8, 0xBFu8])
    ||| starts_with(d, seq![0x00u8, 0x00u8, 0xFEu8, 0xFFu8])
    ||| starts_with(d, seq![0xFFu8, 0xFEu8, 0x00u8, 0x00u8])
    ||| starts_with(d, seq![0xFEu8, 0xFFu8])
    ||| starts_with(d, seq![0xFFu8, 0xFEu8])
}

/// What `content_inspector::inspect(..).is_binary()` answers: no byte order
/// mark, and either a NUL byte among the first 1024 bytes or a PDF or PNG
/// signature at the start.
pub open spec fn looks_binary(d: Seq<u8>) -> bool {
    &&& !has_bom(d)
    &&& {
        ||| exists|i: int| 0 <= i < d.len() && i < 1024 && #[trigger] d[i] == 0u8
        ||| starts_with(d, seq![37u8, 80u8, 68u8, 70u8])
        ||| starts_with(d, seq![0x89u8, 80u8, 78u8, 71u8])
    }
}

/// Calls `content_inspector::inspect(data).is_binary()`. The contract states
/// that function's rule: binary unless the buffer starts with a UTF-8, UTF-16
/// or UTF-32 byte order mark, and then binary exactly when a NUL byte occurs
/// in the first 1024 bytes or the buffer starts with `%PDF` or `\x89PNG`.
#[verifier::external_body]
pub(crate) fn is_binary(data: &[u8]) -> (r: bool)
    ensures
        r == looks_binary(data@),
{
    content_inspector::inspect(data).is_binary()
}

/// Content is skipped entirely when it looks binary or holds the ignore marker.
pub open spec fn ignored_content(d: Seq<u8>) -> bool {
    looks_binary(d) || contains_run(d, ignore_marker())
}

/// The marker bytes.
fn marker_bytes() -> (r: Vec<u8>)
    ensures
        r@ == ignore_marker(),
{
    let v = vec![108u8, 105u8, 110u8, 101u8, 99u8, 104u8, 101u8, 99u8, 107u8, 58u8,
                 105u8, 103u8, 110u8, 111u8, 114u8, 101u8];
    assert(v@ =~= ignore_marker());
    v
}

/// Whether `needle` occurs as a contiguous run in `hay` (`hay.windows(n).any(..)`).
pub fn contains_bytes(hay: &[u8], needle: &[u8]) -> (r: bool)
    ensures
        r == contains_run(hay@, needle@),
{
    let n = hay.len();
    let m = needle.len();
    if m > n {
        proof {
            assert forall|i: int| 0 <= i && i + needle@.len() <= hay@.len() implies
                #[trigger] hay@.subrange(i, i + needle@.len()) != needle@ by {}
        }
        return false;
    }
    if m == 0 {
        assert(hay@.subrange(0int, 0int + needle@.len()) =~= needle@);
        return true;
    }
    let mut i: usize = 0;
    while i <= n - m
        invariant
            n == hay@.len(),
            m == needle@.len(),
            0 < m <= n,
            i <= n - m + 1,
            forall|k: int| 0 <= k < i ==> #[trigger] hay@.subrange(k, k + m) != needle@,
        decreases n - m + 1 - i,
    {
        let window = slice_subrange(hay, i, i + m);
        if starts_with_bytes(window, needle) {
            assert(window@.take(m as int) =~= window@);
            assert(hay@.subrange(i as int, i + needle@.len()) == needle@);
            return true;
        }
        proof {
            assert(window@.len() == m);
            assert(window@.take(m as int) =~= window@);
        }
        i = i + 1;
    }
    false
}

/// `true` when the content looks binary or holds the inline-ignore marker.
pub fn is_ignored(data: &[u8]) -> (r: bool)
    ensures
        r == ignored_content(data@),
{
    if is_binary(data) {
        return true;
    }
    let marker = marker_bytes();
    contains_bytes(data, marker.as_slice())
}

/// The line count, with or without blank lines.
pub open spec fn line_count(d: Seq<u8>, skip_whitespace: bool) -> nat {
    if skip_whitespace {
        kept_count(lines_of(d), LineFilter::NonBlank)
    } else {
        lines_of(d).len()
    }
}

/// Count lines, optionally excluding blank/whitespace-only lines.
///
/// A line is blank when it is empty or contains only whitespace once split
/// on `\n` (a trailing `\r` on CRLF files is whitespace too, so it doesn't
/// make a line non-blank).
pub fn count_lines(data: &[u8], skip_whitespace: bool) -> (r: usize)
    ensures
        r == line_count(data@, skip_whitespace),
{
    if !skip_whitespace {
        return count_newlines(data);
    }
    count_kept_lines(data, &LineFilter::NonBlank)
}

/// Count logical lines in raw file bytes, excluding blank and
/// whitespace-only lines.
///
/// It counts the non-blank pieces of a plain split on `\n`; the empty piece
/// after a trailing newline is blank, so it is never counted.
pub fn count_non_blank_lines(data: &[u8]) -> (r: usize)
    ensures
        r == kept_count(split_pieces(data@), LineFilter::NonBlank),
{
    proof {
        lemma_pieces_vs_lines_non_blank(data@);
    }
    count_kept_lines(data, &LineFilter::NonBlank)
}

/// Counting the non-blank pieces of a plain split gives the same number as
/// counting the non-blank lines: the piece a trailing newline leaves is blank.
pub proof fn lemma_pieces_vs_lines_non_blank(d: Seq<u8>)
    ensures
        kept_count(split_pieces(d), LineFilter::NonBlank) == kept_count(lines_of(d), LineFilter::NonBlank),
{
    let e = Seq::<u8>::empty();
    assert(is_blank(e));
    if d.len() == 0 {
        assert(split_pieces(d) =~= seq![e]);
        assert(seq![e].drop_last() =~= Seq::<Seq<u8>>::empty());
    } else if d.last() == nl() {
        let p = split_pieces(d.drop_last());
        assert(split_pieces(d) == p.push(e));
        assert(p.push(e).drop_last() =~= p);
    }
}

/// Line count that leaves out full-line comments when the path's extension
/// names a known comment syntax, and counts every line otherwise.
pub open spec fn code_line_count(path: Seq<char>, d: Seq<u8>) -> nat {
    match syntax_for_path(path) {
        Some(c) => kept_count(lines_of(d), LineFilter::NonComment(c)),
        None => lines_of(d).len(),
    }
}

/// Count lines, excluding full-line comments when `path`'s extension maps to
/// a known line-comment prefix. Falls back to [`count_newlines`] for
/// unrecognized extensions.
pub fn count_lines_skip_comments(path: &str, data: &[u8]) -> (r: usize)
    ensures
        r == code_line_count(path@, data@),
{
    match syntax_of_path(path) {
        None => count_newlines(data),
        Some(c) => count_kept_lines(data, &LineFilter::NonComment(c)),
    }
}

/// Compute `(line_count, is_ignored)` from in-memory bytes. Binary content
/// is treated as ignored: its raw newline bytes aren't meaningful lines.
pub fn content_info(data: &[u8], skip_whitespace: bool) -> (r: (usize, bool))
    ensures
        r.0 == line_count(data@, skip_whitespace),
        r.1 == ignored_content(data@),
{
    let ignored = is_ignored(data);
    (count_lines(data, skip_whitespace), ignored)
}

/// Compute `(line_count, is_ignored)` for content that sits at `path`; with
/// `skip_comments`, full-line comments are left out for the languages the
/// extension of `path` names (`path` need not exist on disk).
pub fn content_info_for_path(path: &str, data: &[u8], skip_comments: bool) -> (r: (usize, bool))
    ensures
        r.0 == if skip_comments { code_line_count(path@, data@) } else { lines_of(data@).len() },
        r.1 == ignored_content(data@),
{
    let ignored = is_ignored(data);
    let lines = if skip_comments {
        count_lines_skip_comments(path, data)
    } else {
        count_newlines(data)
    };
    (lines, ignored)
}

/// Compute `(line_count, is_ignored)`, optionally excluding blank and
/// whitespace-only lines from the count.
pub fn content_info_with_options(data: &[u8], skip_whitespace: bool) -> (r: (usize, bool))
    ensures
        r.0 == line_count(data@, skip_whitespace),
        r.1 == ignored_content(data@),
{
    let lines = if skip_whitespace {
        let n = count_non_blank_lines(data);
        proof {
            lemma_pieces_vs_lines_non_blank(data@);
        }
        n
    } else {
        count_newlines(data)
    };
    (lines, is_ignored(data))
}

// ---------------------------------------------------------------- laws

/// Without skipping, the line count is the newline-based count: one line per
/// `\n`, plus one for a last line that has no `\n` after it.
pub proof fn lemma_unfiltered_count(d: Seq<u8>)
    ensures
        line_count(d, false) == newline_line_count(d),
        lines_of(d).len() == newline_line_count(d),
{
    lemma_split_nonempty(d);
}

/// Leaving out blank lines, or full-line comments, never raises the count.
pub proof fn lemma_skipping_never_adds(path: Seq<char>, d: Seq<u8>)
    ensures
        line_count(d, true) <= line_count(d, false),
        code_line_count(path, d) <= line_count(d, false),
{
    lemma_kept_le_len(lines_of(d), LineFilter::NonBlank);
    match syntax_for_path(path) {
        Some(c) => lemma_kept_le_len(lines_of(d), LineFilter::NonComment(c)),
        None => {},
    }
}

/// A trailing newline does not add a line: `"a\nb"` and `"a\nb\n"` both have two.
pub proof fn lemma_trailing_newline(d: Seq<u8>)
    requires
        d.len() > 0,
        d.last() != nl(),
    ensures
        newline_line_count(d.push(nl())) == newline_line_count(d),
{
    assert(d.push(nl()).drop_last() =~= d);
}

proof fn lemma_newline_total_concat(a: Seq<u8>, b: Seq<u8>)
    ensures
        newline_total(a + b) == newline_total(a) + newline_total(b),
    decreases b.len(),
{
    if b.len() == 0 {
        assert(a + b =~= a);
    } else {
        assert((a + b).drop_last() =~= a + b.drop_last());
        lemma_newline_total_concat(a, b.drop_last());
    }
}

/// Lines add up across files: when `a` is empty or ends with a newline, the
/// line count of `a` followed by `b` is the sum of their line counts.
pub proof fn lemma_count_concat(a: Seq<u8>, b: Seq<u8>)
    requires
        a.len() == 0 || a.last() == nl(),
    ensures
        newline_line_count(a + b) == newline_line_count(a) + newline_line_count(b),
{
    lemma_newline_total_concat(a, b);
    if b.len() == 0 {
        assert(a + b =~= a);
    } else {
        assert((a + b).last() == b.last());
        if a.len() == 0 {
            assert(a + b =~= b);
        }
    }
}

/// The ignore marker works anywhere: any content that holds it, wherever, is
/// ignored.
pub proof fn lemma_marker_anywhere(before: Seq<u8>, after: Seq<u8>)
    ensures
        ignored_content(before + ignore_marker() + after),
{
    let d = before + ignore_marker() + after;
    let i = before.len() as int;
    assert(d.subrange(i, i + ignore_marker().len()) =~= ignore_marker());
}

proof fn lemma_last_piece_empty(a: Seq<u8>)
    requires
        a.len() == 0 || a.last() == nl(),
    ensures
        split_pieces(a).len() >= 1,
        split_pieces(a).last() == Seq::<u8>::empty(),
{
    lemma_split_nonempty(a);
}

proof fn lemma_split_concat(a: Seq<u8>, b: Seq<u8>)
    requires
        a.len() == 0 || a.last() == nl(),
    ensures
        split_pieces(a + b) == split_pieces(a).drop_last() + split_pieces(b),
    decreases b.len(),
{
    lemma_last_piece_empty(a);
    let pa = split_pieces(a);
    if b.len() == 0 {
        assert(a + b =~= a);
        assert(pa.drop_last() + split_pieces(b) =~= pa.drop_last().push(Seq::<u8>::empty()));
        assert(pa.drop_last().push(pa.last()) =~= pa);
    } else {
        let bb = b.drop_last();
        lemma_split_concat(a, bb);
        lemma_split_nonempty(bb);
        assert((a + b).drop_last() =~= a + bb);
        assert((a + b).last() == b.last());
        let q = split_pieces(bb);
        if b.last() == nl() {
            assert(pa.drop_last() + q.push(Seq::<u8>::empty()) =~= (pa.drop_last() + q).push(Seq::<u8>::empty()));
        } else {
            let r = pa.drop_last() + q;
            assert(r.last() == q.last());
            assert(pa.drop_last() + q.update(q.len() - 1, q.last().push(b.last()))
                =~= r.update(r.len() - 1, r.last().push(b.last())));
        }
    }
}

proof fn lemma_kept_concat(s1: Seq<Seq<u8>>, s2: Seq<Seq<u8>>, filter: LineFilter)
    ensures
        kept_count(s1 + s2, filter) == kept_count(s1, filter) + kept_count(s2, filter),
    decreases s2.len(),
{
    if s2.len() == 0 {
        assert(s1 + s2 =~= s1);
    } else {
        assert((s1 + s2).drop_last() =~= s1 + s2.drop_last());
        assert((s1 + s2).last() == s2.last());
        lemma_kept_concat(s1, s2.drop_last(), filter);
    }
}

proof fn lemma_whitespace_pieces_blank(w: Seq<u8>)
    requires
        forall|i: int| 0 <= i < w.len() ==> is_ws(#[trigger] w[i]),
    ensures
        kept_count(split_pieces(w), LineFilter::NonBlank) == 0,
        forall|k: int| 0 <= k < split_pieces(w).len() ==> is_blank(#[trigger] split_pieces(w)[k]),
    decreases w.len(),
{
    lemma_split_nonempty(w);
    assert(is_blank(Seq::<u8>::empty()));
    if w.len() == 0 {
        assert(split_pieces(w).drop_last() =~= Seq::<Seq<u8>>::empty());
        assert(kept_count(Seq::<Seq<u8>>::empty(), LineFilter::NonBlank) == 0);
        assert(split_pieces(w).last() =~= Seq::<u8>::empty());
        assert(!keeps(LineFilter::NonBlank, split_pieces(w).last()));
    } else {
        let v = w.drop_last();
        assert forall|i: int| 0 <= i < v.len() implies is_ws(#[trigger] v[i]) by {
            assert(v[i] == w[i]);
        }
        lemma_whitespace_pieces_blank(v);
        lemma_split_nonempty(v);
        let p = split_pieces(v);
        assert(is_ws(w.last()));
        if w.last() == nl() {
            lemma_kept_push(p, Seq::<u8>::empty(), LineFilter::NonBlank);
            assert(kept_count(split_pieces(w), LineFilter::NonBlank) == 0);
        } else {
            let x = p.last().push(w.last());
            assert(is_blank(p[p.len() - 1]));
            assert forall|j: int| 0 <= j < x.len() implies is_ws(#[trigger] x[j]) by {
                if j < x.len() - 1 {
                    assert(x[j] == p.last()[j]);
                }
            }
            let u = p.update(p.len() - 1, x);
            assert(u.drop_last() =~= p.drop_last());
            assert(p.drop_last().push(p.last()) =~= p);
            lemma_kept_push(p.drop_last(), p.last(), LineFilter::NonBlank);
            lemma_kept_push(p.drop_last(), x, LineFilter::NonBlank);
            assert(u =~= p.drop_last().push(x));
        }
    }
}

/// Blank padding is not counted: appending only whitespace bytes (blank
/// lines included) after a newline leaves the non-blank count unchanged.
pub proof fn lemma_blank_padding(a: Seq<u8>, w: Seq<u8>)
    requires
        a.len() == 0 || a.last() == nl(),
        forall|i: int| 0 <= i < w.len() ==> is_ws(#[trigger] w[i]),
    ensures
        line_count(a + w, true) == line_count(a, true),
{
    lemma_pieces_vs_lines_non_blank(a + w);
    lemma_pieces_vs_lines_non_blank(a);
    lemma_split_concat(a, w);
    lemma_last_piece_empty(a);
    let pa = split_pieces(a);
    lemma_kept_concat(pa.drop_last(), split_pieces(w), LineFilter::NonBlank);
    lemma_whitespace_pieces_blank(w);
    assert(is_blank(Seq::<u8>::empty()));
    assert(pa.drop_last().push(pa.last()) =~= pa);
    lemma_kept_push(pa.drop_last(), pa.last(), LineFilter::NonBlank);
}


/// Leading whitespace is every leading byte among space, tab, line feed,
/// form feed and carriage return: trimming skips a run of them whole, and
/// what remains starts with none of them.
pub proof fn lemma_trim_skips_all_whitespace(w: Seq<u8>, rest: Seq<u8>)
    requires
        forall|i: int| 0 <= i < w.len() ==> {
            let b = #[trigger] w[i];
            b == 32u8 || b == 9u8 || b == 10u8 || b == 12u8 || b == 13u8
        },
    ensures
        trim_leading(w + rest) == trim_leading(rest),
        trim_leading(rest).len() > 0 ==> {
            let b = trim_leading(rest)[0];
            !(b == 32u8 || b == 9u8 || b == 10u8 || b == 12u8 || b == 13u8)
        },
    decreases w.len(),
{
    lemma_trim_result_starts_non_ws(rest);
    if w.len() > 0 {
        let v = w.drop_first();
        assert forall|i: int| 0 <= i < v.len() implies {
            let b = #[trigger] v[i];
            b == 32u8 || b == 9u8 || b == 10u8 || b == 12u8 || b == 13u8
        } by {
            assert(v[i] == w[i + 1]);
        }
        assert((w + rest)[0] == w[0]);
        assert((w + rest).drop_first() =~= v + rest);
        lemma_trim_skips_all_whitespace(v, rest);
    } else {
        assert(w + rest =~= rest);
    }
}

proof fn lemma_trim_result_starts_non_ws(s: Seq<u8>)
    ensures
        trim_leading(s).len() > 0 ==> !is_ws(trim_leading(s)[0]),
    decreases s.len(),
{
    if s.len() > 0 && is_ws(s[0]) {
        lemma_trim_result_starts_non_ws(s.drop_first());
    }
}

/// A line made of leading whitespace (spaces, tabs, form feeds, carriage
/// returns), then the comment prefix, then anything, is a full-line comment:
/// `//` for the double-slash syntax, `#` for the hash syntax, so the
/// comment-skipping count leaves it out.
pub proof fn lemma_indented_comment_skipped(w: Seq<u8>, rest: Seq<u8>)
    requires
        forall|i: int| 0 <= i < w.len() ==> {
            let b = #[trigger] w[i];
            b == 32u8 || b == 9u8 || b == 12u8 || b == 13u8
        },
    ensures
        !keeps(LineFilter::NonComment(CommentSyntax::DoubleSlash), w + seq![47u8, 47u8] + rest),
        !keeps(LineFilter::NonComment(CommentSyntax::Hash), w + seq![35u8] + rest),
{
    let a = seq![47u8, 47u8] + rest;
    let h = seq![35u8] + rest;
    lemma_trim_skips_all_whitespace(w, a);
    lemma_trim_skips_all_whitespace(w, h);
    assert(w + seq![47u8, 47u8] + rest =~= w + a);
    assert(w + seq![35u8] + rest =~= w + h);
    assert(trim_leading(a) == a);
    assert(trim_leading(h) == h);
    assert(a.take(2) =~= seq![47u8, 47u8]);
    assert(h.take(1) =~= seq![35u8]);
}

} // verus!
