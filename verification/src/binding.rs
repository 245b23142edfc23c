//! The result record handed to foreign hosts, and the check they run.
use vstd::prelude::*;
use crate::checker::{check_content, content_report, CheckOptions};
use crate::config::Config;
use crate::result::{FileReport, FileResult, Status};
use crate::preset::{DEFAULT_ERROR, DEFAULT_WARN};

verus! {

/// A check result as foreign hosts receive it: the status as a word.
#[derive(Debug, Clone, PartialEq, Eq)]
pub struct CheckResult {
    pub status: &'static str,
    pub lines: usize,
    pub warn_limit: Option<usize>,
    pub error_limit: Option<usize>,
    pub message: Option<String>,
}

/// The abstract content of a [`CheckResult`].
pub ghost struct CheckRecord {
    pub status: Seq<char>,
    pub lines: usize,
    pub warn_limit: Option<usize>,
    pub error_limit: Option<usize>,
    pub message: Option<Seq<char>>,
}

impl View for CheckResult {
    type V = CheckRecord;

    open spec fn view(&self) -> CheckRecord {
        CheckRecord {
            status: self.status@,
            lines: self.lines,
            warn_limit: self.warn_limit,
            error_limit: self.error_limit,
            message: crate::result::text_opt(self.message),
        }
    }
}

/// The word for a status.
pub open spec fn status_name(s: Status) -> Seq<char> {
    match s {
        Status::Okay => seq!['o', 'k'],
        Status::Warn => seq!['w', 'a', 'r', 'n'],
        Status::Error => seq!['e', 'r', 'r', 'o', 'r'],
    }
}

/// The record for a file result: same fields, status as its word.
pub open spec fn record_of(r: FileReport) -> CheckRecord {
    CheckRecord {
        status: status_name(r.status),
        lines: r.lines,
        warn_limit: r.warn_limit,
        error_limit: r.error_limit,
        message: r.message,
    }
}

/// The record for a configuration that could not be parsed: status `error`,
/// no lines, no limits, the parse error as the message.
pub open spec fn config_error_record(message: Seq<char>) -> CheckRecord {
    CheckRecord {
        status: status_name(Status::Error),
        lines: 0,
        warn_limit: None,
        error_limit: None,
        message: Some(message),
    }
}

fn status_word(s: Status) -> (r: &'static str)
    ensures
        r@ == status_name(s),
{
    match s {
        Status::Okay => {
            proof {
                reveal_strlit("ok");
            }
            "ok"
        },
        Status::Warn => {
            proof {
                reveal_strlit("warn");
            }
            "warn"
        },
        Status::Error => {
            proof {
                reveal_strlit("error");
            }
            "error"
        },
    }
}

impl CheckResult {
    /// A result for a malformed config: hosts have no separate error
    /// channel, so they tell it by `status == "error"` and the message.
    pub fn config_error(message: String) -> (r: Self)
        ensures
            r@ == config_error_record(message@),
    {
        CheckResult {
            status: status_word(Status::Error),
            lines: 0,
            warn_limit: None,
            error_limit: None,
            message: Some(message),
        }
    }
}

impl From<FileResult> for CheckResult {
    /// The record for a file result: same fields, status as its word
    /// (`from_spec` below; [`record_of`] states it over views).
    fn from(result: FileResult) -> (r: Self) {
        let status = match result.status {
            Status::Okay => "ok",
            Status::Warn => "warn",
            Status::Error => "error",
        };
        CheckResult {
            status,
            lines: result.lines,
            warn_limit: result.warn_limit,
            error_limit: result.error_limit,
            message: result.message,
        }
    }
}

impl vstd::std_specs::convert::FromSpecImpl<FileResult> for CheckResult {
    open spec fn obeys_from_spec() -> bool {
        true
    }

    open spec fn from_spec(v: FileResult) -> Self {
        CheckResult {
            status: match v.status {
                Status::Okay => "ok",
                Status::Warn => "warn",
                Status::Error => "error",
            },
            lines: v.lines,
            warn_limit: v.warn_limit,
            error_limit: v.error_limit,
            message: v.message,
        }
    }
}

/// Packs a linear-memory range into one `u64`: the address in the high 32
/// bits, the length in the low 32 bits.
pub fn pack_range(ptr: u32, len: u32) -> (r: u64)
    ensures
        r == ptr as int * 0x1_0000_0000 + len as int,
        r >> 32u64 == ptr as u64,
        r & 0xffff_ffffu64 == len as u64,
{
    let p = ptr as u64;
    let l = len as u64;
    let r = (p << 32u64) | l;
    assert(r == p * 0x1_0000_0000 + l && r >> 32u64 == p && r & 0xffff_ffffu64 == l) by (bit_vector)
        requires
            p < 0x1_0000_0000,
            l < 0x1_0000_0000,
            r == (p << 32u64) | l,
    ;
    r
}

/// The check a host runs on in-memory content with the built-in 200/400
/// limits: no config, a parsed config, or the parse error of a config.
pub fn check_hosted(filename: &str, content: &[u8], config: Option<Result<Config, String>>) -> (r: CheckResult)
    ensures
        r@ == match config {
            None => record_of(content_report(filename@, content@, None, CheckOptions {
                max_lines: None,
                fallback_warn: Some(DEFAULT_WARN),
                fallback_error: Some(DEFAULT_ERROR),
                skip_whitespace: false,
            })),
            Some(Ok(c)) => record_of(content_report(filename@, content@, Some(c@), CheckOptions {
                max_lines: None,
                fallback_warn: Some(DEFAULT_WARN),
                fallback_error: Some(DEFAULT_ERROR),
                skip_whitespace: false,
            })),
            Some(Err(e)) => config_error_record(e@),
        },
{
    let opts = CheckOptions::default();
    match config {
        Some(Err(e)) => CheckResult::config_error(e),
        Some(Ok(c)) => record_from(check_content(filename, content, Some(&c), &opts)),
        None => record_from(check_content(filename, content, None, &opts)),
    }
}

/// The record for a file result, through `From`.
fn record_from(fr: FileResult) -> (r: CheckResult)
    ensures
        r@ == record_of(fr@),
{
    let ghost status = fr.status;
    let ghost message = fr.message;
    let r = CheckResult::from(fr);
    proof {
        reveal_strlit("ok");
        reveal_strlit("warn");
        reveal_strlit("error");
        assert(r.message == message);
        assert(status == Status::Okay ==> r.status@ == seq!['o', 'k']);
        assert(status == Status::Warn ==> r.status@ == seq!['w', 'a', 'r', 'n']);
        assert(status == Status::Error ==> r.status@ == seq!['e', 'r', 'r', 'o', 'r']);
    }
    r
}


/// The record `From` makes of a file result, by its contract.
pub open spec fn host_record(v: FileResult) -> CheckRecord {
    <CheckResult as vstd::std_specs::convert::FromSpec<FileResult>>::from_spec(v)@
}

/// The host sees the status as a fixed word: `ok`, `warn` or `error`, one
/// per status, both from `From` and in the record of a check.
pub proof fn lemma_status_words(v: FileResult)
    ensures
        (v.status == Status::Okay) <==> (host_record(v).status == seq!['o', 'k']),
        (v.status == Status::Warn) <==> (host_record(v).status == seq!['w', 'a', 'r', 'n']),
        (v.status == Status::Error) <==> (host_record(v).status == seq!['e', 'r', 'r', 'o', 'r']),
        (v.status == Status::Okay) <==> (record_of(v@).status == seq!['o', 'k']),
        (v.status == Status::Warn) <==> (record_of(v@).status == seq!['w', 'a', 'r', 'n']),
        (v.status == Status::Error) <==> (record_of(v@).status == seq!['e', 'r', 'r', 'o', 'r']),
        host_record(v).lines == v.lines,
        host_record(v).warn_limit == v.warn_limit,
        host_record(v).error_limit == v.error_limit,
{
    reveal_strlit("ok");
    reveal_strlit("warn");
    reveal_strlit("error");
    let ok = seq!['o', 'k'];
    let warn = seq!['w', 'a', 'r', 'n'];
    let err = seq!['e', 'r', 'r', 'o', 'r'];
    assert("ok"@ =~= ok);
    assert("warn"@ =~= warn);
    assert("error"@ =~= err);
    assert(ok.len() != warn.len() && ok.len() != err.len() && warn.len() != err.len());
    match v.status {
        Status::Okay => assert(host_record(v).status == "ok"@),
        Status::Warn => assert(host_record(v).status == "warn"@),
        Status::Error => assert(host_record(v).status == "error"@),
    }
}

} // verus!
