//! The daemon's records: its status, the PID file, the tail of its log, the
//! decisions of following the log, and the lines it logs.

use vstd::prelude::*;
use crate::text::{
    all_digits, decimal, decimal_string, digits_value, lemma_decimal_short,
    lemma_zero_padded_value, zero_padded, zero_padded_string, lemma_decimal_digits, lemma_trimmed_unchanged, parse_u32,
    parse_u32_spec, trim, trimmed,
};

verus! {

/// What the daemon reports about itself.
#[derive(Clone, Debug)]
pub struct Status {
    pub running: bool,
    pub pid: Option<u32>,
    pub blocks_today: usize,
    pub started_at: Option<String>,
    pub last_write: Option<String>,
    pub folder: String,
    pub last_error: Option<String>,
}

impl Status {
    /// The status shown when the daemon has written none: whether a daemon
    /// process runs, its PID if known, the capture folder, and nothing else.
    pub fn unrecorded(running: bool, pid: Option<u32>, folder: String) -> (r: Status)
        ensures
            r.running == running,
            r.pid == pid,
            r.blocks_today == 0,
            r.started_at is None,
            r.last_write is None,
            r.folder == folder,
            r.last_error is None,
    {
        Status {
            running,
            pid,
            blocks_today: 0,
            started_at: None,
            last_write: None,
            folder,
            last_error: None,
        }
    }
}

/// What the PID file holds for process `pid`: its decimal notation.
pub fn pid_file_contents(pid: u32) -> (r: String)
    ensures
        r@ == decimal(pid as nat),
{
    decimal_string(pid as u64)
}

/// The process id that a PID file holding `contents` names: the text without
/// surrounding white space, read as a `u32`; `None` when it is not one.
pub fn parse_pid(contents: &str) -> (r: Option<u32>)
    ensures
        r == parse_u32_spec(trimmed(contents@)),
{
    let t = trim(contents);
    parse_u32(t.as_str())
}

/// Reading back a PID file gives the process id that was written to it.
pub proof fn lemma_pid_file_round_trip(pid: u32)
    ensures
        parse_u32_spec(trimmed(decimal(pid as nat))) == Some(pid),
{
    let d = decimal(pid as nat);
    lemma_decimal_digits(pid as nat);
    assert(crate::text::is_digit(d[0]));
    assert(crate::text::is_digit(d[d.len() - 1]));
    lemma_trimmed_unchanged(d);
}

/// Index from which the last `lines` of `len` lines start (the whole of them
/// when there are fewer).
pub open spec fn tail_start(len: nat, lines: nat) -> nat {
    if lines >= len {
        0
    } else {
        (len - lines) as nat
    }
}

/// The last `lines` lines of `all` (all of them when there are fewer).
pub fn last_lines(all: Vec<String>, lines: usize) -> (r: Vec<String>)
    ensures
        r@ == all@.subrange(tail_start(all@.len(), lines as nat) as int, all@.len() as int),
        lines >= all@.len() ==> r@ == all@,
        lines < all@.len() ==> r@.len() == lines && r@ == all@.subrange(
            all@.len() - lines,
            all@.len() as int,
        ),
{
    let ghost old_all = all;
    let mut all = all;
    let len = all.len();
    let start = if lines >= len {
        0
    } else {
        len - lines
    };
    let r = all.split_off(start);
    assert(lines >= len ==> r@ =~= old_all@);
    r
}

/// What following the log does after looking at the log file.
#[derive(Clone, Copy, Debug, PartialEq, Eq, Structural)]
pub enum FollowAction {
    /// The file is not there (being rotated): look again later.
    Wait,
    /// Print the lines appended since the last look.
    Read,
    /// The file shrank (it was truncated or replaced): open it again, then
    /// print what it holds from the reopened position.
    ReopenAndRead,
}

/// State of following the log: the file length seen at the last look.
pub struct LogFollower {
    pub last_len: u64,
}

impl LogFollower {
    /// Starts following a log whose length is `len`, after its existing
    /// content was printed.
    pub fn new(len: u64) -> (r: LogFollower)
        ensures
            r.last_len == len,
    {
        LogFollower { last_len: len }
    }

    /// Decides what to do after a look at the log file, which `exists` or not
    /// and has length `len`, and remembers the length.
    pub fn observe(&mut self, exists: bool, len: u64) -> (a: FollowAction)
        ensures
            !exists ==> a == FollowAction::Wait && final(self).last_len == old(self).last_len,
            exists && len < old(self).last_len ==> a == FollowAction::ReopenAndRead,
            exists && len >= old(self).last_len ==> a == FollowAction::Read,
            exists ==> final(self).last_len == len,
    {
        if !exists {
            return FollowAction::Wait;
        }
        let a = if len < self.last_len {
            FollowAction::ReopenAndRead
        } else {
            FollowAction::Read
        };
        self.last_len = len;
        a
    }
}

/// A log line: the timestamp in brackets, a space, then the message.
pub open spec fn log_line_spec(timestamp: Seq<char>, message: Seq<char>) -> Seq<char> {
    "["@ + timestamp + "] "@ + message
}

/// Formats a log line for a given timestamp.
pub fn format_log_line(timestamp: &str, message: &str) -> (r: String)
    ensures
        r@ == log_line_spec(timestamp@, message@),
{
    let mut r = "[".to_owned();
    r.append(timestamp);
    r.append("] ");
    r.append(message);
    r
}

/// A moment on the local clock, as its calendar and clock fields.
#[derive(Clone, Copy, Debug)]
pub struct LocalTime {
    pub year: i32,
    pub month: u32,
    pub day: u32,
    pub hour: u32,
    pub minute: u32,
    pub second: u32,
}

/// The year as `%Y` writes it: four digits, zero-padded, for years 0 to
/// 9999; otherwise a sign followed by at least four digits.
pub open spec fn year_text(year: int) -> Seq<char> {
    if 0 <= year <= 9999 {
        zero_padded(year as nat, 4)
    } else if year < 0 {
        seq!['-'] + zero_padded((0 - year) as nat, 4)
    } else {
        seq!['+'] + zero_padded(year as nat, 4)
    }
}

/// The log timestamp `%Y-%m-%d %H:%M:%S` of `t`: each field after the year
/// has two digits, zero-padded.
pub open spec fn timestamp_text(t: LocalTime) -> Seq<char> {
    year_text(t.year as int) + seq!['-'] + zero_padded(t.month as nat, 2) + seq!['-']
        + zero_padded(t.day as nat, 2) + seq![' '] + zero_padded(t.hour as nat, 2) + seq![':']
        + zero_padded(t.minute as nat, 2) + seq![':'] + zero_padded(t.second as nat, 2)
}

/// For a time of years 0 to 9999 whose fields have at most two digits, the
/// timestamp is 19 characters: the year, month, day, hour, minute and second
/// as digit runs at fixed places, read back as the very fields, separated by
/// `-`, `-`, ` `, `:` and `:`.
pub proof fn lemma_timestamp_fields(t: LocalTime)
    requires
        0 <= t.year <= 9999,
        t.month < 100,
        t.day < 100,
        t.hour < 100,
        t.minute < 100,
        t.second < 100,
    ensures
        ({
            let ts = timestamp_text(t);
            &&& ts.len() == 19
            &&& ts[4] == '-' && ts[7] == '-' && ts[10] == ' ' && ts[13] == ':' && ts[16] == ':'
            &&& all_digits(ts.subrange(0, 4)) && digits_value(ts.subrange(0, 4)) == t.year
            &&& all_digits(ts.subrange(5, 7)) && digits_value(ts.subrange(5, 7)) == t.month
            &&& all_digits(ts.subrange(8, 10)) && digits_value(ts.subrange(8, 10)) == t.day
            &&& all_digits(ts.subrange(11, 13)) && digits_value(ts.subrange(11, 13)) == t.hour
            &&& all_digits(ts.subrange(14, 16)) && digits_value(ts.subrange(14, 16)) == t.minute
            &&& all_digits(ts.subrange(17, 19)) && digits_value(ts.subrange(17, 19)) == t.second
        }),
{
    lemma_decimal_short(t.year as nat);
    lemma_decimal_short(t.month as nat);
    lemma_decimal_short(t.day as nat);
    lemma_decimal_short(t.hour as nat);
    lemma_decimal_short(t.minute as nat);
    lemma_decimal_short(t.second as nat);
    lemma_zero_padded_value(t.year as nat, 4);
    lemma_zero_padded_value(t.month as nat, 2);
    lemma_zero_padded_value(t.day as nat, 2);
    lemma_zero_padded_value(t.hour as nat, 2);
    lemma_zero_padded_value(t.minute as nat, 2);
    lemma_zero_padded_value(t.second as nat, 2);
    let ts = timestamp_text(t);
    assert(ts.subrange(0, 4) =~= zero_padded(t.year as nat, 4));
    assert(ts.subrange(5, 7) =~= zero_padded(t.month as nat, 2));
    assert(ts.subrange(8, 10) =~= zero_padded(t.day as nat, 2));
    assert(ts.subrange(11, 13) =~= zero_padded(t.hour as nat, 2));
    assert(ts.subrange(14, 16) =~= zero_padded(t.minute as nat, 2));
    assert(ts.subrange(17, 19) =~= zero_padded(t.second as nat, 2));
}

fn year_string(year: i32) -> (r: String)
    ensures
        r@ == year_text(year as int),
{
    proof {
        reveal_strlit("-");
        reveal_strlit("+");
    }
    if 0 <= year && year <= 9999 {
        zero_padded_string(year as u64, 4)
    } else if year < 0 {
        let magnitude = (0 - (year as i64)) as u64;
        let mut r = "-".to_owned();
        r.append(zero_padded_string(magnitude, 4).as_str());
        r
    } else {
        let mut r = "+".to_owned();
        r.append(zero_padded_string(year as u64, 4).as_str());
        r
    }
}

/// The log timestamp of `t`.
pub fn timestamp_string(t: &LocalTime) -> (r: String)
    ensures
        r@ == timestamp_text(*t),
{
    proof {
        reveal_strlit("-");
        reveal_strlit(" ");
        reveal_strlit(":");
    }
    let mut r = year_string(t.year);
    r.append("-");
    r.append(zero_padded_string(t.month as u64, 2).as_str());
    r.append("-");
    r.append(zero_padded_string(t.day as u64, 2).as_str());
    r.append(" ");
    r.append(zero_padded_string(t.hour as u64, 2).as_str());
    r.append(":");
    r.append(zero_padded_string(t.minute as u64, 2).as_str());
    r.append(":");
    r.append(zero_padded_string(t.second as u64, 2).as_str());
    r
}

/// The log line for `message` at local time `t`.
pub fn log_line(t: &LocalTime, message: &str) -> (r: String)
    ensures
        r@ == log_line_spec(timestamp_text(*t), message@),
{
    let ts = timestamp_string(t);
    format_log_line(ts.as_str(), message)
}

/// The process that a signal for PID `pid` may be sent to: only a PID from 1
/// to `i32::MAX` names a single process (0 and negative values name process
/// groups or every process).
pub open spec fn signal_target_spec(pid: u32) -> Option<i32> {
    if 0 < pid <= i32::MAX {
        Some(pid as i32)
    } else {
        None
    }
}

/// Every PID from 1 to 2147483647 is signalled as itself; only 0 and PIDs
/// above 2147483647 have no target.
pub proof fn lemma_signal_target_single_process(pid: u32)
    ensures
        1 <= pid <= 2147483647 ==> signal_target_spec(pid) == Some(pid as i32),
        1 <= pid <= 2147483647 ==> (pid as i32) as int == pid as int,
        (pid == 0 || pid > 2147483647) ==> signal_target_spec(pid) is None,
{
}

/// The target to signal for the PID read from the PID file, or `None` when
/// that PID names no single process.
pub fn signal_target(pid: u32) -> (r: Option<i32>)
    ensures
        r == signal_target_spec(pid),
        r is Some <==> 1 <= pid <= 2147483647,
        r matches Some(t) ==> t as int == pid as int,
{
    proof {
        lemma_signal_target_single_process(pid);
    }
    if 0 < pid && pid <= 0x7fff_ffff {
        Some(pid as i32)
    } else {
        None
    }
}

} // verus!
