//! Run identifiers, log-file naming and exit-code markers in run logs.

use crate::text::{
    chars_of, decimal, has_prefix, lines, lines_of, parse_i32, parse_i32_chars, push_decimal,
    skip_chars, starts_with_chars, string_of, trim, trim_chars,
};
use vstd::prelude::*;

verus! {

/// Log-line prefix appended when a background run exits.
pub const EXIT_CODE_MARKER_PREFIX: &'static str = "__ISHI_EXIT_CODE__=";

/// Suffix of a run's log file name.
pub const LOG_FILE_SUFFIX: &'static str = ".log";

/// An ASCII letter or digit.
pub open spec fn is_ascii_alphanumeric(c: char) -> bool {
    let v = c as int;
    (48 <= v <= 57) || (65 <= v <= 90) || (97 <= v <= 122)
}

/// `char::is_ascii_alphanumeric`.
pub fn char_is_ascii_alphanumeric(c: char) -> (r: bool)
    ensures
        r == is_ascii_alphanumeric(c),
{
    match c {
        '0'..='9' | 'A'..='Z' | 'a'..='z' => true,
        _ => false,
    }
}

/// The character used in place of `c` in a file name.
pub open spec fn filename_char(c: char) -> char {
    if is_ascii_alphanumeric(c) || c == '-' || c == '_' {
        c
    } else {
        '_'
    }
}

/// `s` with every character other than ASCII letters, digits, `-` and `_`
/// replaced by `_`.
pub open spec fn sanitized(s: Seq<char>) -> Seq<char> {
    s.map_values(|c: char| filename_char(c))
}

/// The run identifier of a launch of `thread_id` created at `created_at_ms`.
pub open spec fn run_id_of(thread_id: Seq<char>, created_at_ms: nat) -> Seq<char> {
    "run-"@ + decimal(created_at_ms) + "-"@ + sanitized(thread_id)
}

/// Replaces characters that are unsafe in file names with `_`.
pub fn sanitize_for_filename(input: &str) -> (r: String)
    ensures
        r@ == sanitized(input@),
{
    let v = chars_of(input);
    let mut out: Vec<char> = Vec::new();
    let mut i: usize = 0;
    while i < v.len()
        invariant
            v@ == input@,
            i <= v@.len(),
            out@ == sanitized(v@.take(i as int)),
        decreases v@.len() - i,
    {
        let c = v[i];
        let d = if char_is_ascii_alphanumeric(c) || c == '-' || c == '_' {
            c
        } else {
            '_'
        };
        out.push(d);
        i = i + 1;
        assert(out@ =~= sanitized(v@.take(i as int)));
    }
    assert(v@.take(i as int) =~= v@);
    string_of(out.as_slice())
}

/// The deterministic run identifier for a thread launch:
/// `run-<created_at_ms>-<sanitized thread id>`.
pub fn build_run_id(thread_id: &str, created_at_ms: u64) -> (r: String)
    ensures
        r@ == run_id_of(thread_id@, created_at_ms as nat),
{
    let safe = sanitize_for_filename(thread_id);
    let mut r = String::new();
    r.push_str("run-");
    push_decimal(&mut r, created_at_ms);
    r.push_str("-");
    r.push_str(safe.as_str());
    assert(r@ =~= run_id_of(thread_id@, created_at_ms as nat));
    r
}

/// The file name of a run's log: `<run_id>.log`.
pub fn run_log_file_name(run_id: &str) -> (r: String)
    ensures
        r@ == run_id@ + LOG_FILE_SUFFIX@,
{
    let mut r = String::new();
    r.push_str(run_id);
    r.push_str(LOG_FILE_SUFFIX);
    assert(r@ =~= run_id@ + LOG_FILE_SUFFIX@);
    r
}

/// The exit code a log line records: the line, trimmed, must start with the
/// marker prefix and continue with an `i32` literal and nothing else.
pub open spec fn marker_value(line: Seq<char>) -> Option<i32> {
    let t = trim(line);
    if has_prefix(t, EXIT_CODE_MARKER_PREFIX@) {
        parse_i32(t.skip(EXIT_CODE_MARKER_PREFIX@.len() as int))
    } else {
        None
    }
}

/// The exit code of the last line in `ls` that records one.
pub open spec fn last_marker(ls: Seq<Seq<char>>) -> Option<i32>
    decreases ls.len(),
{
    if ls.len() == 0 {
        None
    } else {
        match marker_value(ls.last()) {
            Some(v) => Some(v),
            None => last_marker(ls.drop_last()),
        }
    }
}

fn line_marker_value(line: &[char], prefix: &[char]) -> (r: Option<i32>)
    requires
        prefix@ == EXIT_CODE_MARKER_PREFIX@,
    ensures
        r == marker_value(line@),
{
    let t = trim_chars(line);
    if starts_with_chars(t.as_slice(), prefix) {
        let rest = skip_chars(t.as_slice(), prefix.len());
        parse_i32_chars(rest.as_slice())
    } else {
        None
    }
}

/// The exit code recorded by the latest exit-code marker in a run log.
pub fn exit_code_from_log_contents(contents: &str) -> (r: Option<i32>)
    ensures
        r == last_marker(lines(contents@)),
{
    let v = chars_of(contents);
    let ls = lines_of(v.as_slice());
    let prefix = chars_of(EXIT_CODE_MARKER_PREFIX);
    let ghost all = lines(contents@);
    let mut i: usize = ls.len();
    assert(all.take(i as int) =~= all);
    while i > 0
        invariant
            i <= ls@.len(),
            all == lines(contents@),
            ls@.len() == all.len(),
            forall|k: int| 0 <= k < ls@.len() ==> #[trigger] ls@[k]@ == all[k],
            prefix@ == EXIT_CODE_MARKER_PREFIX@,
            last_marker(all) == last_marker(all.take(i as int)),
        decreases i,
    {
        let ghost pre = all.take(i as int);
        assert(pre.last() == all[i - 1]);
        assert(pre.drop_last() =~= all.take(i - 1));
        assert(ls@[i - 1]@ == all[i - 1]);
        let m = line_marker_value(ls[i - 1].as_slice(), prefix.as_slice());
        assert(last_marker(pre) == match marker_value(all[i - 1]) {
            Some(v) => Some(v),
            None => last_marker(all.take(i - 1)),
        });
        if m.is_some() {
            return m;
        }
        i = i - 1;
    }
    None
}

} // verus!
