//! Report text: the `--status` table, violation lines, and the `--json` document.
//!
//! Reading files, resolving configs and writing to standard output are the
//! caller's I/O; these functions take the per-file results in order and
//! produce the report text and the error flag.
use vstd::prelude::*;
use vstd::utf8::encode_utf8;
use crate::result::{FileReport, FileResult, Status};
use crate::text::{chars_of, decimal, decimal_text, digit_count, push_char, push_decimal};
use crate::escape::{serde_json_string, serde_json_text};

verus! {

/// `n` spaces.
pub open spec fn spaces(n: nat) -> Seq<char> {
    Seq::new(n, |i: int| ' ')
}

/// `s` padded with spaces on the right to at least `w` characters (`{:<w$}`).
pub open spec fn pad_right(s: Seq<char>, w: nat) -> Seq<char> {
    if s.len() >= w {
        s
    } else {
        s + spaces((w - s.len()) as nat)
    }
}

/// `s` padded with spaces on the left to at least `w` characters (`{:>w$}`).
pub open spec fn pad_left(s: Seq<char>, w: nat) -> Seq<char> {
    if s.len() >= w {
        s
    } else {
        spaces((w - s.len()) as nat) + s
    }
}

proof fn lemma_digit_count_bound(n: nat)
    ensures
        digit_count(n) <= n + 1,
        digit_count(n) >= 1,
    decreases n,
{
    if n >= 10 {
        lemma_digit_count_bound(n / 10);
    }
}

/// The decimal rendering of `n` has `digit_count(n)` characters.
pub proof fn lemma_decimal_len(n: nat)
    ensures
        decimal_text(n).len() == digit_count(n),
    decreases n,
{
    if n >= 10 {
        lemma_decimal_len(n / 10);
    }
}

/// Number of decimal digits of `n` (`0` has one).
pub fn digits(n: usize) -> (r: usize)
    ensures
        r == digit_count(n as nat),
    decreases n,
{
    if n < 10 {
        1
    } else {
        proof {
            lemma_digit_count_bound((n / 10) as nat);
        }
        1 + digits(n / 10)
    }
}

fn push_spaces(s: &mut String, n: usize)
    ensures
        final(s)@ == old(s)@ + spaces(n as nat),
{
    let mut i: usize = 0;
    while i < n
        invariant
            i <= n,
            s@ == old(s)@ + spaces(i as nat),
        decreases n - i,
    {
        push_char(s, ' ');
        assert(old(s)@ + spaces((i + 1) as nat) =~= (old(s)@ + spaces(i as nat)).push(' '));
        i = i + 1;
    }
}

fn push_pad_right(s: &mut String, text: &str, w: usize)
    ensures
        final(s)@ == old(s)@ + pad_right(text@, w as nat),
{
    let n = chars_of(text).len();
    s.append(text);
    if n < w {
        push_spaces(s, w - n);
    }
    assert(s@ =~= old(s)@ + pad_right(text@, w as nat));
}

fn push_pad_left(s: &mut String, text: &str, w: usize)
    ensures
        final(s)@ == old(s)@ + pad_left(text@, w as nat),
{
    let n = chars_of(text).len();
    if n < w {
        push_spaces(s, w - n);
    }
    s.append(text);
    assert(s@ =~= old(s)@ + pad_left(text@, w as nat));
}

// ------------------------------------------------------------ status table

/// One row of the `--status` table.
pub struct Row {
    pub path: String,
    pub lines: usize,
    pub limit: usize,
    pub status: Status,
}

/// The abstract content of a [`Row`].
pub ghost struct RowView {
    pub path: Seq<char>,
    pub lines: usize,
    pub limit: usize,
    pub status: Status,
}

impl View for Row {
    type V = RowView;

    open spec fn view(&self) -> RowView {
        RowView { path: self.path@, lines: self.lines, limit: self.limit, status: self.status }
    }
}

/// The limit shown for a result: the error limit for a file at error level,
/// the warn limit otherwise (so an ok file shows how close it is to a
/// warning), each falling back to the other when absent.
pub open spec fn display_limit(r: FileReport) -> Option<usize> {
    if r.status == Status::Error {
        match r.error_limit {
            Some(l) => Some(l),
            None => r.warn_limit,
        }
    } else {
        match r.warn_limit {
            Some(l) => Some(l),
            None => r.error_limit,
        }
    }
}

/// The rows of the status table: one per result that has a limit, in order.
pub open spec fn status_rows(checked: Seq<(String, FileResult)>) -> Seq<RowView>
    decreases checked.len(),
{
    if checked.len() == 0 {
        Seq::empty()
    } else {
        let prev = status_rows(checked.drop_last());
        let (p, r) = checked.last();
        match display_limit(r@) {
            Some(l) => prev.push(RowView { path: p@, lines: r.lines, limit: l, status: r.status }),
            None => prev,
        }
    }
}

/// Usage as a whole percentage of the limit, `0` for a zero limit.
pub open spec fn percent(lines: usize, limit: usize) -> nat {
    if limit > 0 {
        ((lines * 100) / (limit as int)) as nat
    } else {
        0
    }
}

/// The status column of a row.
pub open spec fn row_tag(r: RowView) -> Seq<char> {
    match r.status {
        Status::Error => "[ERROR]"@,
        Status::Warn => "[WARN]"@,
        Status::Okay => decimal_text(percent(r.lines, r.limit)) + "%"@,
    }
}

/// A row as printed: path, line count, limit, and tag, in aligned columns.
pub open spec fn row_line(r: RowView, pw: nat, lw: nat, tw: nat) -> Seq<char> {
    pad_right(r.path, pw) + "  "@ + pad_left(decimal_text(r.lines as nat), lw) + " / "@
        + pad_right(decimal_text(r.limit as nat), tw) + "  "@ + row_tag(r)
}

/// The length `str::len` reports for a text: its UTF-8 byte count.
pub open spec fn byte_len(p: Seq<char>) -> nat {
    (encode_utf8(p).len() as usize) as nat
}

/// Width of the path column: the longest path, counted in UTF-8 bytes.
pub open spec fn path_width(rows: Seq<RowView>) -> nat
    decreases rows.len(),
{
    if rows.len() == 0 {
        0
    } else {
        let w = byte_len(rows.last().path);
        let prev = path_width(rows.drop_last());
        if w > prev { w } else { prev }
    }
}

/// Width of the line-count column.
pub open spec fn lines_width(rows: Seq<RowView>) -> nat
    decreases rows.len(),
{
    if rows.len() == 0 {
        0
    } else {
        let w = digit_count(rows.last().lines as nat);
        let prev = lines_width(rows.drop_last());
        if w > prev { w } else { prev }
    }
}

/// Width of the limit column.
pub open spec fn limit_width(rows: Seq<RowView>) -> nat
    decreases rows.len(),
{
    if rows.len() == 0 {
        0
    } else {
        let w = digit_count(rows.last().limit as nat);
        let prev = limit_width(rows.drop_last());
        if w > prev { w } else { prev }
    }
}

/// The printed lines of the status table.
pub open spec fn table_lines(rows: Seq<RowView>) -> Seq<Seq<char>> {
    rows.map_values(|r: RowView| row_line(r, path_width(rows), lines_width(rows), limit_width(rows)))
}

/// The texts of a list of strings.
pub open spec fn line_texts(v: Seq<String>) -> Seq<Seq<char>> {
    v.map_values(|s: String| s@)
}

/// Every row's line count times 100 fits in a `usize`.
pub open spec fn percent_fits(rows: Seq<RowView>) -> bool {
    forall|i: int| 0 <= i < rows.len() ==> (#[trigger] rows[i]).lines * 100 <= usize::MAX
}

/// The printed lines of the status table for `rows`.
pub fn table_text(rows: &Vec<Row>) -> (r: Vec<String>)
    requires
        percent_fits(rows@.map_values(|x: Row| x@)),
    ensures
        line_texts(r@) == table_lines(rows@.map_values(|x: Row| x@)),
{
    let ghost rv = rows@.map_values(|x: Row| x@);
    let mut pw: usize = 0;
    let mut lw: usize = 0;
    let mut tw: usize = 0;
    let mut i: usize = 0;
    assert(rv.take(0) =~= Seq::<RowView>::empty());
    while i < rows.len()
        invariant
            i <= rows@.len(),
            rv == rows@.map_values(|x: Row| x@),
            pw == path_width(rv.take(i as int)),
            lw == lines_width(rv.take(i as int)),
            tw == limit_width(rv.take(i as int)),
        decreases rows@.len() - i,
    {
        assert(rv.take(i + 1).drop_last() =~= rv.take(i as int));
        assert(rv.take(i + 1).last() == rows@[i as int]@);
        let w = rows[i].path.as_str().len();
        if w > pw {
            pw = w;
        }
        let d = digits(rows[i].lines);
        if d > lw {
            lw = d;
        }
        let e = digits(rows[i].limit);
        if e > tw {
            tw = e;
        }
        i = i + 1;
    }
    assert(rv.take(rows@.len() as int) =~= rv);
    let mut out: Vec<String> = Vec::new();
    let mut k: usize = 0;
    while k < rows.len()
        invariant
            k <= rows@.len(),
            rv == rows@.map_values(|x: Row| x@),
            percent_fits(rv),
            pw == path_width(rv),
            lw == lines_width(rv),
            tw == limit_width(rv),
            out@.len() == k,
            forall|j: int| 0 <= j < k ==> (#[trigger] out@[j])@ == row_line(rv[j], pw as nat, lw as nat, tw as nat),
        decreases rows@.len() - k,
    {
        let row = &rows[k];
        assert(rv[k as int] == row@);
        let mut line = String::new();
        push_pad_right(&mut line, row.path.as_str(), pw);
        line.append("  ");
        let ls = decimal(row.lines);
        push_pad_left(&mut line, ls.as_str(), lw);
        line.append(" / ");
        let ts = decimal(row.limit);
        push_pad_right(&mut line, ts.as_str(), tw);
        line.append("  ");
        match row.status {
            Status::Error => line.append("[ERROR]"),
            Status::Warn => line.append("[WARN]"),
            Status::Okay => {
                let pct = if row.limit > 0 { row.lines * 100 / row.limit } else { 0 };
                push_decimal(&mut line, pct);
                line.append("%");
            },
        }
        assert(line@ =~= row_line(row@, pw as nat, lw as nat, tw as nat));
        out.push(line);
        k = k + 1;
    }
    assert(line_texts(out@) =~= table_lines(rv));
    out
}

/// Some row of the table is at error level.
pub open spec fn has_error_row(rows: Seq<RowView>) -> bool {
    exists|i: int| 0 <= i < rows.len() && (#[trigger] rows[i]).status == Status::Error
}

/// The rows of the status table for the checked files, in order.
pub fn status_table_rows(checked: &[(String, FileResult)]) -> (r: Vec<Row>)
    ensures
        r@.map_values(|x: Row| x@) == status_rows(checked@),
{
    let mut rows: Vec<Row> = Vec::new();
    let mut i: usize = 0;
    assert(checked@.take(0) =~= Seq::<(String, FileResult)>::empty());
    while i < checked.len()
        invariant
            i <= checked@.len(),
            rows@.map_values(|x: Row| x@) == status_rows(checked@.take(i as int)),
        decreases checked@.len() - i,
    {
        assert(checked@.take(i + 1).drop_last() =~= checked@.take(i as int));
        assert(checked@.take(i + 1).last() == checked@[i as int]);
        let (p, r) = &checked[i];
        let limit = if r.status == Status::Error {
            match r.error_limit {
                Some(l) => Some(l),
                None => r.warn_limit,
            }
        } else {
            match r.warn_limit {
                Some(l) => Some(l),
                None => r.error_limit,
            }
        };
        if let Some(l) = limit {
            let ghost before = rows@;
            rows.push(Row { path: p.clone(), lines: r.lines, limit: l, status: r.status });
            assert(rows@.map_values(|x: Row| x@) =~= before.map_values(|x: Row| x@).push(rows@.last()@));
        }
        i = i + 1;
    }
    assert(checked@.take(checked@.len() as int) =~= checked@);
    rows
}

/// The `--status` report: an aligned table of path, line count, limit, and
/// percentage or level, one line per file that has a limit (none for an
/// empty list). Sets `has_error` when a row is at error level; never clears it.
pub fn print_status(checked: &[(String, FileResult)], has_error: &mut bool) -> (r: Vec<String>)
    requires
        percent_fits(status_rows(checked@)),
    ensures
        line_texts(r@) == table_lines(status_rows(checked@)),
        *final(has_error) == (*old(has_error) || has_error_row(status_rows(checked@))),
{
    let rows = status_table_rows(checked);
    let ghost rv = rows@.map_values(|x: Row| x@);
    let lines = table_text(&rows);
    let mut i: usize = 0;
    while i < rows.len()
        invariant
            i <= rows@.len(),
            rv == rows@.map_values(|x: Row| x@),
            rv == status_rows(checked@),
            *has_error == (*old(has_error) || exists|j: int| 0 <= j < i && (#[trigger] rv[j]).status == Status::Error),
        decreases rows@.len() - i,
    {
        assert(rv[i as int] == rows@[i as int]@);
        if rows[i].status == Status::Error {
            *has_error = true;
        }
        i = i + 1;
    }
    lines
}

// ------------------------------------------------------------ violations

/// The line printed for a file over a limit: path, line count, the threshold
/// passed (if any), and the rule's message for that level (if any).
pub open spec fn violation_line(path: Seq<char>, r: FileReport) -> Seq<char> {
    let kind = if r.status == Status::Error { "error"@ } else { "warn"@ };
    let lim = if r.status == Status::Error { r.error_limit } else { r.warn_limit };
    path + ": "@ + decimal_text(r.lines as nat) + " lines"@ + match lim {
        Some(t) => " ("@ + kind + " threshold: "@ + decimal_text(t as nat) + ")"@,
        None => Seq::empty(),
    } + match r.message {
        Some(m) => " \u{2014} "@ + m,
        None => Seq::empty(),
    }
}

/// The lines printed in violations mode: one per file at warn or error level.
pub open spec fn violation_lines(checked: Seq<(String, FileResult)>) -> Seq<Seq<char>>
    decreases checked.len(),
{
    if checked.len() == 0 {
        Seq::empty()
    } else {
        let prev = violation_lines(checked.drop_last());
        let (p, r) = checked.last();
        if r.status == Status::Okay {
            prev
        } else {
            prev.push(violation_line(p@, r@))
        }
    }
}

/// Some checked file is at error level.
pub open spec fn has_error_result(checked: Seq<(String, FileResult)>) -> bool {
    exists|i: int| 0 <= i < checked.len() && (#[trigger] checked[i]).1.status == Status::Error
}

/// The violation line for one file.
pub fn violation_text(path: &str, r: &FileResult) -> (s: String)
    ensures
        s@ == violation_line(path@, r@),
{
    let mut s = String::new();
    s.append(path);
    s.append(": ");
    push_decimal(&mut s, r.lines);
    s.append(" lines");
    let is_error = r.status == Status::Error;
    let lim = if is_error { r.error_limit } else { r.warn_limit };
    if let Some(t) = lim {
        s.append(" (");
        if is_error {
            s.append("error");
        } else {
            s.append("warn");
        }
        s.append(" threshold: ");
        push_decimal(&mut s, t);
        s.append(")");
    }
    if let Some(m) = &r.message {
        s.append(" \u{2014} ");
        s.append(m.as_str());
    }
    assert(s@ =~= violation_line(path@, r@));
    s
}

/// The lines printed in violations mode for the checked files.
pub fn violation_report(checked: &[(String, FileResult)]) -> (r: Vec<String>)
    ensures
        line_texts(r@) == violation_lines(checked@),
{
    let mut out: Vec<String> = Vec::new();
    let mut i: usize = 0;
    assert(checked@.take(0) =~= Seq::<(String, FileResult)>::empty());
    while i < checked.len()
        invariant
            i <= checked@.len(),
            line_texts(out@) == violation_lines(checked@.take(i as int)),
        decreases checked@.len() - i,
    {
        assert(checked@.take(i + 1).drop_last() =~= checked@.take(i as int));
        assert(checked@.take(i + 1).last() == checked@[i as int]);
        let (p, r) = &checked[i];
        if r.status != Status::Okay {
            let line = violation_text(p.as_str(), r);
            let ghost before = out@;
            out.push(line);
            assert(line_texts(out@) =~= line_texts(before).push(out@.last()@));
        }
        i = i + 1;
    }
    assert(checked@.take(checked@.len() as int) =~= checked@);
    out
}

/// The violations report: one line per file at warn or error level, in
/// order. Sets `has_error` when a file is at error level; never clears it.
pub fn print_violations(checked: &[(String, FileResult)], has_error: &mut bool) -> (r: Vec<String>)
    ensures
        line_texts(r@) == violation_lines(checked@),
        *final(has_error) == (*old(has_error) || has_error_result(checked@)),
{
    let lines = violation_report(checked);
    let mut i: usize = 0;
    while i < checked.len()
        invariant
            i <= checked@.len(),
            *has_error == (*old(has_error) || exists|j: int| 0 <= j < i && (#[trigger] checked@[j]).1.status == Status::Error),
        decreases checked@.len() - i,
    {
        if checked[i].1.status == Status::Error {
            *has_error = true;
        }
        i = i + 1;
    }
    lines
}

// ------------------------------------------------------------ JSON

/// The word used for a status in JSON.
pub open spec fn status_word(s: Status) -> Seq<char> {
    match s {
        Status::Error => "error"@,
        Status::Warn => "warn"@,
        Status::Okay => "ok"@,
    }
}

/// A file appears in the JSON output when it has a limit to show and either
/// all files are wanted or it is at warn or error level.
pub open spec fn json_included(r: FileReport, status_mode: bool) -> bool {
    (status_mode || r.status != Status::Okay) && display_limit(r) is Some
}

/// One JSON object: file, lines, limit, percent, status, and the message if any.
pub open spec fn json_item(path: Seq<char>, r: FileReport, lim: usize) -> Seq<char> {
    "  {\"file\":"@ + serde_json_text(path) + ",\"lines\":"@ + decimal_text(r.lines as nat)
        + ",\"limit\":"@ + decimal_text(lim as nat) + ",\"percent\":"@ + decimal_text(
        percent(r.lines, lim),
    ) + ",\"status\":\""@ + status_word(r.status) + "\""@ + match r.message {
        Some(m) => ",\"message\":"@ + serde_json_text(m),
        None => Seq::empty(),
    } + "}"@
}

/// The JSON objects for the checked files, in order.
pub open spec fn json_items(checked: Seq<(String, FileResult)>, status_mode: bool) -> Seq<Seq<char>>
    decreases checked.len(),
{
    if checked.len() == 0 {
        Seq::empty()
    } else {
        let prev = json_items(checked.drop_last(), status_mode);
        let (p, r) = checked.last();
        if json_included(r@, status_mode) {
            prev.push(json_item(p@, r@, display_limit(r@)->0))
        } else {
            prev
        }
    }
}

/// `items` joined by a comma and a newline.
pub open spec fn join_items(items: Seq<Seq<char>>) -> Seq<char>
    decreases items.len(),
{
    if items.len() == 0 {
        Seq::empty()
    } else if items.len() == 1 {
        items[0]
    } else {
        join_items(items.drop_last()) + ",\n"@ + items.last()
    }
}

/// The JSON array: `[]` when empty, else one object per line between brackets.
pub open spec fn json_document(items: Seq<Seq<char>>) -> Seq<char> {
    if items.len() == 0 {
        "[]"@
    } else {
        "[\n"@ + join_items(items) + "\n]"@
    }
}

/// Every file shown in JSON has a line count whose hundredfold fits in a `usize`.
pub open spec fn json_percent_fits(checked: Seq<(String, FileResult)>, status_mode: bool) -> bool {
    forall|i: int|
        0 <= i < checked.len() && json_included((#[trigger] checked[i]).1@, status_mode)
            ==> checked[i].1.lines * 100 <= usize::MAX
}

/// Some file shown in JSON is at error level.
pub open spec fn json_has_error(checked: Seq<(String, FileResult)>, status_mode: bool) -> bool {
    exists|i: int|
        0 <= i < checked.len() && json_included((#[trigger] checked[i]).1@, status_mode)
            && checked[i].1.status == Status::Error
}

/// The JSON object for one file with limit `lim`.
pub fn json_item_text(path: &str, r: &FileResult, lim: usize) -> (s: String)
    requires
        r.lines * 100 <= usize::MAX,
    ensures
        s@ == json_item(path@, r@, lim),
{
    let mut s = String::new();
    s.append("  {\"file\":");
    let f = serde_json_string(path);
    s.append(f.as_str());
    s.append(",\"lines\":");
    push_decimal(&mut s, r.lines);
    s.append(",\"limit\":");
    push_decimal(&mut s, lim);
    s.append(",\"percent\":");
    let pct = if lim > 0 { r.lines * 100 / lim } else { 0 };
    push_decimal(&mut s, pct);
    s.append(",\"status\":\"");
    match r.status {
        Status::Error => s.append("error"),
        Status::Warn => s.append("warn"),
        Status::Okay => s.append("ok"),
    }
    s.append("\"");
    if let Some(m) = &r.message {
        s.append(",\"message\":");
        let q = serde_json_string(m.as_str());
        s.append(q.as_str());
    }
    s.append("}");
    assert(s@ =~= json_item(path@, r@, lim));
    s
}

/// The JSON objects for the checked files.
pub fn json_report_items(checked: &[(String, FileResult)], status_mode: bool) -> (r: Vec<String>)
    requires
        json_percent_fits(checked@, status_mode),
    ensures
        line_texts(r@) == json_items(checked@, status_mode),
{
    let mut out: Vec<String> = Vec::new();
    let mut i: usize = 0;
    assert(checked@.take(0) =~= Seq::<(String, FileResult)>::empty());
    while i < checked.len()
        invariant
            i <= checked@.len(),
            json_percent_fits(checked@, status_mode),
            line_texts(out@) == json_items(checked@.take(i as int), status_mode),
        decreases checked@.len() - i,
    {
        assert(checked@.take(i + 1).drop_last() =~= checked@.take(i as int));
        assert(checked@.take(i + 1).last() == checked@[i as int]);
        let (p, r) = &checked[i];
        let wanted = status_mode || r.status != Status::Okay;
        let limit = if r.status == Status::Error {
            match r.error_limit {
                Some(l) => Some(l),
                None => r.warn_limit,
            }
        } else {
            match r.warn_limit {
                Some(l) => Some(l),
                None => r.error_limit,
            }
        };
        if wanted {
            if let Some(lim) = limit {
                let item = json_item_text(p.as_str(), r, lim);
                let ghost before = out@;
                out.push(item);
                assert(line_texts(out@) =~= line_texts(before).push(out@.last()@));
            }
        }
        i = i + 1;
    }
    assert(checked@.take(checked@.len() as int) =~= checked@);
    out
}

/// The JSON array text for a list of objects.
pub fn json_document_text(items: &Vec<String>) -> (r: String)
    ensures
        r@ == json_document(line_texts(items@)),
{
    let ghost t = line_texts(items@);
    if items.len() == 0 {
        let mut e = String::new();
        e.append("[]");
        assert(e@ =~= "[]"@);
        return e;
    }
    let mut body = String::new();
    body.append(items[0].as_str());
    let mut i: usize = 1;
    assert(t.take(1).drop_last() =~= Seq::<Seq<char>>::empty());
    assert(body@ =~= join_items(t.take(1)));
    while i < items.len()
        invariant
            1 <= i <= items@.len(),
            t == line_texts(items@),
            body@ == join_items(t.take(i as int)),
        decreases items@.len() - i,
    {
        assert(t.take(i + 1).drop_last() =~= t.take(i as int));
        assert(t.take(i + 1).last() == items@[i as int]@);
        body.append(",\n");
        body.append(items[i].as_str());
        i = i + 1;
    }
    assert(t.take(items@.len() as int) =~= t);
    let mut doc = String::new();
    doc.append("[\n");
    doc.append(body.as_str());
    doc.append("\n]");
    doc
}

/// The `--json` report: a JSON array. Without `status_mode` only files at
/// warn or error level appear; with it, every file that has a limit. Sets
/// `has_error` when a listed file is at error level; never clears it.
pub fn print_json(checked: &[(String, FileResult)], status_mode: bool, has_error: &mut bool) -> (r: String)
    requires
        json_percent_fits(checked@, status_mode),
    ensures
        r@ == json_document(json_items(checked@, status_mode)),
        *final(has_error) == (*old(has_error) || json_has_error(checked@, status_mode)),
{
    let items = json_report_items(checked, status_mode);
    let mut i: usize = 0;
    while i < checked.len()
        invariant
            i <= checked@.len(),
            *has_error == (*old(has_error) || exists|j: int|
                0 <= j < i && json_included((#[trigger] checked@[j]).1@, status_mode)
                    && checked@[j].1.status == Status::Error),
        decreases checked@.len() - i,
    {
        let r = &checked[i].1;
        if r.status == Status::Error && (r.error_limit.is_some() || r.warn_limit.is_some()) {
            *has_error = true;
        }
        i = i + 1;
    }
    json_document_text(&items)
}

/// Every error result names an error limit, as the results of a check do.
pub open spec fn errors_have_limits(checked: Seq<(String, FileResult)>) -> bool {
    forall|i: int| 0 <= i < checked.len() && (#[trigger] checked[i]).1.status == Status::Error
        ==> checked[i].1.error_limit is Some
}

/// All three reports raise the error flag alike: exactly when some file is at
/// error level, provided error results name their error limit (which the
/// results of a check always do).
pub proof fn lemma_reports_agree_on_errors(checked: Seq<(String, FileResult)>, status_mode: bool)
    requires
        errors_have_limits(checked),
    ensures
        has_error_row(status_rows(checked)) == has_error_result(checked),
        json_has_error(checked, status_mode) == has_error_result(checked),
    decreases checked.len(),
{
    if checked.len() > 0 {
        let prev = checked.drop_last();
        assert forall|i: int| 0 <= i < prev.len() && (#[trigger] prev[i]).1.status == Status::Error
            implies prev[i].1.error_limit is Some by {
            assert(prev[i] == checked[i]);
        }
        lemma_reports_agree_on_errors(prev, status_mode);
        let rows = status_rows(checked);
        let prows = status_rows(prev);
        let (p, r) = checked.last();
        assert(checked[checked.len() - 1] == checked.last());
        if has_error_result(checked) {
            let i = choose|i: int| 0 <= i < checked.len() && (#[trigger] checked[i]).1.status == Status::Error;
            if i < checked.len() - 1 {
                assert(prev[i] == checked[i]);
                let j = choose|j: int| 0 <= j < prows.len() && (#[trigger] prows[j]).status == Status::Error;
                assert(rows[j] == prows[j]);
                let k = choose|k: int| 0 <= k < prev.len() && json_included((#[trigger] prev[k]).1@, status_mode)
                    && prev[k].1.status == Status::Error;
                assert(checked[k] == prev[k]);
            } else {
                assert(rows[rows.len() - 1].status == Status::Error);
            }
        }
        if has_error_row(rows) {
            let j = choose|j: int| 0 <= j < rows.len() && (#[trigger] rows[j]).status == Status::Error;
            if j < prows.len() {
                assert(rows[j] == prows[j]);
                let i = choose|i: int| 0 <= i < prev.len() && (#[trigger] prev[i]).1.status == Status::Error;
                assert(checked[i] == prev[i]);
            }
        }
        if json_has_error(checked, status_mode) {
            let k = choose|k: int| 0 <= k < checked.len() && json_included((#[trigger] checked[k]).1@, status_mode)
                && checked[k].1.status == Status::Error;
            if k < prev.len() {
                assert(prev[k] == checked[k]);
            }
        }
    }
}


/// A file over a limit whose rule gave a message for the level reached has
/// that message at the end of its violation line, after a spaced em dash,
/// whether the level is warn or error; the line starts with the path and
/// `": "`.
pub proof fn lemma_violation_line_ends_with_message(path: Seq<char>, r: FileReport, m: Seq<char>)
    requires
        r.status != Status::Okay,
        r.message == Some(m),
    ensures
        ({
            let l = violation_line(path, r);
            &&& l.len() >= path.len() + 2 + m.len() + 3
            &&& l.subrange(l.len() - m.len() - 3, l.len() as int) == seq![' ', '\u{2014}', ' '] + m
            &&& l.subrange(0, path.len() + 2int) == path + seq![':', ' ']
        }),
{
    reveal_strlit(" \u{2014} ");
    reveal_strlit(": ");
    let l = violation_line(path, r);
    let tail = seq![' ', '\u{2014}', ' '] + m;
    assert(" \u{2014} "@ =~= seq![' ', '\u{2014}', ' ']);
    assert(": "@ =~= seq![':', ' ']);
    let kind = if r.status == Status::Error { "error"@ } else { "warn"@ };
    let lim = if r.status == Status::Error { r.error_limit } else { r.warn_limit };
    let mid = decimal_text(r.lines as nat) + " lines"@ + match lim {
        Some(t) => " ("@ + kind + " threshold: "@ + decimal_text(t as nat) + ")"@,
        None => Seq::empty(),
    };
    assert(l =~= path + seq![':', ' '] + mid + tail);
    assert(l.subrange(l.len() - m.len() - 3, l.len() as int) =~= tail);
    assert(l.subrange(0, path.len() + 2int) =~= path + seq![':', ' ']);
}

} // verus!
