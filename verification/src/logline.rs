//! Diagnostic log lines: `[timestamp] message`, stamped with the wall clock.
//!
//! Writing the lines to the console and to the log file is the host's; a
//! failure to write must be reported and swallowed there, never propagated.

use vstd::prelude::*;

verus! {

/// One diagnostic line: `[ts] msg`.
pub open spec fn spec_log_line(ts: Seq<char>, msg: Seq<char>) -> Seq<char> {
    seq!['['] + ts + seq![']', ' '] + msg
}

/// The log file's form of the line: the console form plus a newline.
pub open spec fn spec_log_file_line(ts: Seq<char>, msg: Seq<char>) -> Seq<char> {
    spec_log_line(ts, msg) + seq!['\n']
}

/// Relies on chrono::Local::now and chrono's `%Y-%m-%d %H:%M:%S` format
/// specifiers: the current wall-clock time as `YYYY-MM-DD HH:MM:SS`; every
/// field is zero-padded, the year to at least four digits, so the result has
/// at least 19 characters. The value depends on the clock, so nothing more is
/// promised.
#[verifier::external_body]
fn current_timestamp() -> (r: String)
    ensures
        r@.len() >= 19,
{
    chrono::Local::now().format("%Y-%m-%d %H:%M:%S").to_string()
}

/// `[ts] msg`, exactly.
pub fn format_log_entry(ts: &str, msg: &str) -> (r: String)
    ensures
        r@ == spec_log_line(ts@, msg@),
{
    let mut out = String::new();
    out.append("[");
    out.append(ts);
    out.append("] ");
    out.append(msg);
    proof {
        reveal_strlit("[");
        reveal_strlit("] ");
        assert("["@ =~= seq!['[']);
        assert("] "@ =~= seq![']', ' ']);
        assert(out@ =~= spec_log_line(ts@, msg@));
    }
    out
}

/// `[ts] msg` and a trailing newline, exactly: one appended log-file line.
pub fn format_log_file_entry(ts: &str, msg: &str) -> (r: String)
    ensures
        r@ == spec_log_file_line(ts@, msg@),
{
    let mut out = format_log_entry(ts, msg);
    out.append("\n");
    proof {
        reveal_strlit("\n");
        assert("\n"@ =~= seq!['\n']);
        assert(out@ =~= spec_log_file_line(ts@, msg@));
    }
    out
}

/// The console line and the file line for `msg`, both carrying one and the
/// same fresh wall-clock timestamp.
pub fn stamped_log_lines(msg: &str) -> (r: (String, String))
    ensures
        exists|ts: Seq<char>|
            ts.len() >= 19 && r.0@ == #[trigger] spec_log_line(ts, msg@) && r.1@
                == spec_log_file_line(ts, msg@),
{
    let ts = current_timestamp();
    let console = format_log_entry(ts.as_str(), msg);
    let file = format_log_file_entry(ts.as_str(), msg);
    proof {
        assert(console@ == spec_log_line(ts@, msg@));
    }
    (console, file)
}

} // verus!
