//! JSON string literals: the library's own encoder and the one of `serde_json`.
use vstd::prelude::*;
use crate::text::{chars_of, push_char};

verus! {

/// Lower-case hexadecimal digit for `d < 16`.
pub open spec fn hex_digit(d: int) -> char {
    if d < 10 {
        (48 + d) as char
    } else {
        (87 + d) as char
    }
}

/// `\u00XX` with two lower-case hex digits, for a control character.
pub open spec fn unicode_escape(c: char) -> Seq<char> {
    seq!['\\', 'u', '0', '0', hex_digit(((c as u32) / 16) as int), hex_digit(((c as u32) % 16) as int)]
}

/// How [`json_str`] writes one character: backslash, quote, newline, carriage
/// return and tab get short escapes, other control characters `\u00XX`,
/// everything else stands as it is.
pub open spec fn escaped_char(c: char) -> Seq<char> {
    if c == '\\' {
        seq!['\\', '\\']
    } else if c == '"' {
        seq!['\\', '"']
    } else if c == '\n' {
        seq!['\\', 'n']
    } else if c == '\r' {
        seq!['\\', 'r']
    } else if c == '\t' {
        seq!['\\', 't']
    } else if (c as u32) < 0x20 {
        unicode_escape(c)
    } else {
        seq![c]
    }
}

/// How `serde_json` writes one character of a string: as [`escaped_char`],
/// except that backspace and form feed get the short escapes `\b` and `\f`.
pub open spec fn serde_escaped_char(c: char) -> Seq<char> {
    if c == '\u{8}' {
        seq!['\\', 'b']
    } else if c == '\u{c}' {
        seq!['\\', 'f']
    } else {
        escaped_char(c)
    }
}

/// The escapes of all characters of `s`, concatenated.
pub open spec fn escape_all(s: Seq<char>, serde: bool) -> Seq<char>
    decreases s.len(),
{
    if s.len() == 0 {
        Seq::empty()
    } else {
        escape_all(s.drop_last(), serde) + if serde {
            serde_escaped_char(s.last())
        } else {
            escaped_char(s.last())
        }
    }
}

/// The JSON string literal [`json_str`] produces for `s`.
pub open spec fn json_text(s: Seq<char>) -> Seq<char> {
    seq!['"'] + escape_all(s, false) + seq!['"']
}

/// The JSON string literal `serde_json::to_string` produces for `s`.
pub open spec fn serde_json_text(s: Seq<char>) -> Seq<char> {
    seq!['"'] + escape_all(s, true) + seq!['"']
}

/// Calls `serde_json::to_string` on a string slice. The contract states the
/// escaping of `serde_json`'s serializer for strings (`format_escaped_str`):
/// a quote, each character escaped as [`serde_escaped_char`] says, a quote.
/// Serializing a `str` into the in-memory buffer of `to_string` has no
/// failing path; the `"null"` fallback mirrors how callers treat an error.
#[verifier::external_body]
pub(crate) fn serde_json_string(s: &str) -> (r: String)
    ensures
        r@ == serde_json_text(s@),
{
    serde_json::to_string(s).unwrap_or_else(|_| String::from("null"))
}

fn hex_char(d: u32) -> (c: char)
    requires
        d < 16,
    ensures
        c == hex_digit(d as int),
{
    if d < 10 {
        ((d as u8) + 48u8) as char
    } else {
        ((d as u8) + 87u8) as char
    }
}

fn push_escaped(out: &mut String, c: char)
    ensures
        final(out)@ == old(out)@ + escaped_char(c),
{
    if c == '\\' {
        push_char(out, '\\');
        push_char(out, '\\');
    } else if c == '"' {
        push_char(out, '\\');
        push_char(out, '"');
    } else if c == '\n' {
        push_char(out, '\\');
        push_char(out, 'n');
    } else if c == '\r' {
        push_char(out, '\\');
        push_char(out, 'r');
    } else if c == '\t' {
        push_char(out, '\\');
        push_char(out, 't');
    } else if (c as u32) < 0x20 {
        let v = c as u32;
        push_char(out, '\\');
        push_char(out, 'u');
        push_char(out, '0');
        push_char(out, '0');
        push_char(out, hex_char(v / 16));
        push_char(out, hex_char(v % 16));
    } else {
        push_char(out, c);
    }
    assert(out@ =~= old(out)@ + escaped_char(c));
}

/// Encodes `s` as a JSON string literal including surrounding double-quotes.
pub fn json_str(s: &str) -> (r: String)
    ensures
        r@ == json_text(s@),
{
    let cs = chars_of(s);
    let mut out = String::new();
    push_char(&mut out, '"');
    let mut i: usize = 0;
    assert(s@.take(0) =~= Seq::<char>::empty());
    while i < cs.len()
        invariant
            cs@ == s@,
            i <= cs@.len(),
            out@ == seq!['"'] + escape_all(s@.take(i as int), false),
        decreases cs@.len() - i,
    {
        assert(s@.take(i + 1).drop_last() =~= s@.take(i as int));
        assert(s@.take(i + 1).last() == cs@[i as int]);
        push_escaped(&mut out, cs[i]);
        i = i + 1;
    }
    assert(s@.take(cs@.len() as int) =~= s@);
    push_char(&mut out, '"');
    assert(out@ =~= json_text(s@));
    out
}

/// A character that needs no escape in either encoder.
pub open spec fn plain_char(c: char) -> bool {
    c != '"' && c != '\\' && (c as u32) >= 0x20
}

/// Text without quotes, backslashes or control characters is written as it
/// is, between quotes, by both encoders.
pub proof fn lemma_plain_text_verbatim(s: Seq<char>)
    requires
        forall|i: int| 0 <= i < s.len() ==> plain_char(#[trigger] s[i]),
    ensures
        json_text(s) == seq!['"'] + s + seq!['"'],
        serde_json_text(s) == seq!['"'] + s + seq!['"'],
{
    lemma_plain_escapes(s);
}

proof fn lemma_plain_escapes(s: Seq<char>)
    requires
        forall|i: int| 0 <= i < s.len() ==> plain_char(#[trigger] s[i]),
    ensures
        escape_all(s, false) == s,
        escape_all(s, true) == s,
    decreases s.len(),
{
    if s.len() > 0 {
        let t = s.drop_last();
        assert forall|i: int| 0 <= i < t.len() implies plain_char(#[trigger] t[i]) by {
            assert(t[i] == s[i]);
        }
        lemma_plain_escapes(t);
        assert(plain_char(s[s.len() - 1]));
        assert(t.push(s.last()) =~= s);
    }
}

/// The two encoders agree on every text without backspace or form feed,
/// the only characters they escape differently.
pub proof fn lemma_encoders_agree(s: Seq<char>)
    requires
        forall|i: int| 0 <= i < s.len() ==> #[trigger] s[i] != '\u{8}' && s[i] != '\u{c}',
    ensures
        json_text(s) == serde_json_text(s),
    decreases s.len(),
{
    lemma_escapes_agree(s);
}

proof fn lemma_escapes_agree(s: Seq<char>)
    requires
        forall|i: int| 0 <= i < s.len() ==> #[trigger] s[i] != '\u{8}' && s[i] != '\u{c}',
    ensures
        escape_all(s, false) == escape_all(s, true),
    decreases s.len(),
{
    if s.len() > 0 {
        let t = s.drop_last();
        assert forall|i: int| 0 <= i < t.len() implies #[trigger] t[i] != '\u{8}' && t[i] != '\u{c}' by {
            assert(t[i] == s[i]);
        }
        lemma_escapes_agree(t);
        assert(s[s.len() - 1] != '\u{8}');
    }
}

/// Both encoders leave no raw control character in their output, as JSON requires.
pub proof fn lemma_no_raw_controls(s: Seq<char>)
    ensures
        forall|i: int| 0 <= i < json_text(s).len() ==> (#[trigger] json_text(s)[i] as u32) >= 0x20,
        forall|i: int| 0 <= i < serde_json_text(s).len() ==> (#[trigger] serde_json_text(s)[i] as u32) >= 0x20,
{
    lemma_escapes_printable(s, false);
    lemma_escapes_printable(s, true);
    let a = escape_all(s, false);
    let b = escape_all(s, true);
    assert forall|i: int| 0 <= i < json_text(s).len() implies (#[trigger] json_text(s)[i] as u32) >= 0x20 by {
        if 0 < i < json_text(s).len() - 1 {
            assert(json_text(s)[i] == a[i - 1]);
        }
    }
    assert forall|i: int| 0 <= i < serde_json_text(s).len() implies (#[trigger] serde_json_text(s)[i] as u32) >= 0x20 by {
        if 0 < i < serde_json_text(s).len() - 1 {
            assert(serde_json_text(s)[i] == b[i - 1]);
        }
    }
}

proof fn lemma_hex_printable(d: int)
    requires
        0 <= d < 16,
    ensures
        (hex_digit(d) as u32) >= 0x20,
{
}

proof fn lemma_escapes_printable(s: Seq<char>, serde: bool)
    ensures
        forall|i: int| 0 <= i < escape_all(s, serde).len() ==> (#[trigger] escape_all(s, serde)[i] as u32) >= 0x20,
    decreases s.len(),
{
    if s.len() > 0 {
        let c = s.last();
        lemma_escapes_printable(s.drop_last(), serde);
        let prev = escape_all(s.drop_last(), serde);
        let e = if serde { serde_escaped_char(c) } else { escaped_char(c) };
        if (c as u32) < 0x20 {
            let v = c as u32;
            lemma_hex_printable((v / 16) as int);
            lemma_hex_printable((v % 16) as int);
        }
        assert forall|j: int| 0 <= j < e.len() implies (#[trigger] e[j] as u32) >= 0x20 by {}
        assert forall|i: int| 0 <= i < escape_all(s, serde).len() implies (#[trigger] escape_all(s, serde)[i] as u32) >= 0x20 by {
            if i >= prev.len() {
                assert(escape_all(s, serde)[i] == e[i - prev.len()]);
            } else {
                assert(escape_all(s, serde)[i] == prev[i]);
            }
        }
    }
}

} // verus!
