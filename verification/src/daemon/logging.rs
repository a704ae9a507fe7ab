//! Log lines.
//!
//! Lines look like `[2026-09-10T03:04:05Z] INFO started`. They go to standard
//! error and to the log file, unless both are one file.

use crate::daemon::calendar::{self, civil_from_days};
use crate::text;
use vstd::prelude::*;

verus! {

/// The largest time that a line can carry, in seconds since the Unix epoch.
pub const LAST_SECOND: u64 = 0x7fff_ffff_ffff_ffff;

/// A date and the time of that day in seconds, as `YYYY-MM-DDTHH:MM:SSZ`.
pub open spec fn stamp(y: int, m: int, d: int, time: int) -> Seq<char> {
    text::decimal_padded(y as nat, 4) + "-"@ + text::decimal_padded(m as nat, 2) + "-"@
        + text::decimal_padded(d as nat, 2) + "T"@ + text::decimal_padded((time / 3600) as nat, 2)
        + ":"@ + text::decimal_padded((time % 3600 / 60) as nat, 2) + ":"@
        + text::decimal_padded((time % 60) as nat, 2) + "Z"@
}

/// `text` tells the time `secs` seconds after the start of 1970, in UTC.
pub open spec fn tells(secs: nat, text: Seq<char>) -> bool {
    exists|y: int, m: int, d: int|
        #[trigger] calendar::is_date(y, m, d) && calendar::day_number(y, m, d) == secs / 86_400
            && text == stamp(y, m, d, (secs % 86_400) as int)
}

/// One text tells a time.
pub proof fn times_are_told_one_way(secs: nat, a: Seq<char>, b: Seq<char>)
    requires
        tells(secs, a),
        tells(secs, b),
    ensures
        a == b,
{
    let time = (secs % 86_400) as int;
    let (y, m, d) = choose|y: int, m: int, d: int|
        #[trigger] calendar::is_date(y, m, d) && calendar::day_number(y, m, d) == secs / 86_400
            && a == stamp(y, m, d, time);
    let (y2, m2, d2) = choose|y: int, m: int, d: int|
        #[trigger] calendar::is_date(y, m, d) && calendar::day_number(y, m, d) == secs / 86_400
            && b == stamp(y, m, d, time);
    calendar::dates_are_distinct(y, m, d, y2, m2, d2);
}

/// Formats a time as `YYYY-MM-DDTHH:MM:SSZ` in UTC. `secs` is in seconds since
/// the Unix epoch.
pub fn timestamp(secs: u64) -> (r: String)
    requires
        secs <= LAST_SECOND,
    ensures
        tells(secs as nat, r@),
{
    let days: u64 = secs / 86_400;
    let time: u64 = secs % 86_400;
    let (year, month, day) = civil_from_days(days as i64);
    proof {
        calendar::lemma_not_before_1970(year as int, month as int, day as int);
    }
    let date = text::text5(
        text::decimal_padded_text(year as u64, 4).as_str(),
        "-",
        text::decimal_padded_text(month as u64, 2).as_str(),
        "-",
        text::decimal_padded_text(day as u64, 2).as_str(),
    );
    let hours = text::text3(
        date.as_str(),
        "T",
        text::decimal_padded_text(time / 3600, 2).as_str(),
    );
    let minutes = text::text3(
        hours.as_str(),
        ":",
        text::decimal_padded_text(time % 3600 / 60, 2).as_str(),
    );
    let r = text::text4(
        minutes.as_str(),
        ":",
        text::decimal_padded_text(time % 60, 2).as_str(),
        "Z",
    );
    proof {
        let (y, m, d) = (year as int, month as int, day as int);
        assert(calendar::is_date(y, m, d));
        assert(r@ == stamp(y, m, d, time as int));
    }
    r
}

/// `line` is the log line of a message at a level.
pub open spec fn is_line(line: Seq<char>, level: Seq<char>, message: Seq<char>, secs: nat) -> bool {
    exists|time: Seq<char>| #[trigger]
        tells(secs, time) && line == "["@ + time + "] "@ + level + " "@ + message
}

fn log_line(level: &str, message: &str, secs: u64) -> (r: String)
    requires
        secs <= LAST_SECOND,
    ensures
        is_line(r@, level@, message@, secs as nat),
{
    let time = timestamp(secs);
    let head = text::text4("[", time.as_str(), "] ", level);
    let r = text::text3(head.as_str(), " ", message);
    assert(tells(secs as nat, time@));
    r
}

/// Returns the line for `message` at level `INFO`.
pub fn info(message: &str, secs: u64) -> (r: String)
    requires
        secs <= LAST_SECOND,
    ensures
        is_line(r@, "INFO"@, message@, secs as nat),
{
    log_line("INFO", message, secs)
}

/// Returns the line for `message` at level `WARN`.
pub fn warn(message: &str, secs: u64) -> (r: String)
    requires
        secs <= LAST_SECOND,
    ensures
        is_line(r@, "WARN"@, message@, secs as nat),
{
    log_line("WARN", message, secs)
}

/// Returns the line for `message` at level `ERROR`.
pub fn error(message: &str, secs: u64) -> (r: String)
    requires
        secs <= LAST_SECOND,
    ensures
        is_line(r@, "ERROR"@, message@, secs as nat),
{
    log_line("ERROR", message, secs)
}

/// What makes a file the file it is.
#[derive(Debug, Clone, Copy, PartialEq, Eq, Structural)]
pub struct FileId {
    pub device: u64,
    pub inode: u64,
}

/// Returns true when two open files are one file. Where one of them is not
/// known they are not.
pub fn same_file(a: Option<FileId>, b: Option<FileId>) -> (r: bool)
    ensures
        r == (a is Some && b is Some && a->0 == b->0),
{
    match (a, b) {
        (Some(a), Some(b)) => a == b,
        _ => false,
    }
}

/// Where log lines go.
#[derive(Debug, Clone, Copy, PartialEq, Eq, Structural)]
pub struct Sinks {
    pub stderr: bool,
    pub file: bool,
}

/// Where log lines go: to the file where it was opened, and to standard error
/// unless that is the same file.
pub open spec fn sinks_for(stderr: Option<FileId>, file: Option<FileId>, opened: bool) -> Sinks {
    Sinks {
        stderr: !(opened && stderr is Some && file is Some && stderr->0 == file->0),
        file: opened,
    }
}

/// No line is lost and none is there twice: lines go to the file if it was
/// opened, and to standard error unless both are known to be one file.
pub proof fn no_line_is_lost_or_doubled(
    stderr: Option<FileId>,
    file: Option<FileId>,
    opened: bool,
)
    ensures
        ({
            let sinks = sinks_for(stderr, file, opened);
            &&& sinks.stderr || sinks.file
            &&& sinks.file == opened
            &&& opened && stderr is Some && stderr == file ==> !sinks.stderr
            &&& stderr != file || stderr is None || !opened ==> sinks.stderr
        }),
{
}

/// Decides where log lines go. launchd points standard error at the log file;
/// the copy for standard error is dropped then, so that no line is there
/// twice.
pub fn sinks(stderr: Option<FileId>, file: Option<FileId>, opened: bool) -> (r: Sinks)
    ensures
        r == sinks_for(stderr, file, opened),
{
    Sinks { stderr: !(opened && same_file(stderr, file)), file: opened }
}

proof fn lemma_two_digits(n: nat)
    requires
        n < 100,
    ensures
        text::decimal_padded(n, 2).len() == 2,
{
    if n >= 10 {
        assert(text::decimal(n) == text::decimal(n / 10).push(text::digit_char((n % 10) as int)));
        assert(text::decimal(n / 10).len() == 1);
    }
}

/// A stamp has its parts at their places: the year, the month and the day, and
/// behind a `T` the hours, minutes and seconds of the day.
pub proof fn a_stamp_has_its_parts_in_place(
    y: int,
    m: int,
    d: int,
    hours: int,
    minutes: int,
    seconds: int,
)
    requires
        1970 <= y,
        calendar::is_date(y, m, d),
        0 <= hours < 24,
        0 <= minutes < 60,
        0 <= seconds < 60,
    ensures
        ({
            let s = stamp(y, m, d, hours * 3600 + minutes * 60 + seconds);
            let n = text::decimal_padded(y as nat, 4).len() as int;
            &&& s.len() == n + 16
            &&& s.take(n) == text::decimal_padded(y as nat, 4)
            &&& s.subrange(n + 1, n + 3) == text::decimal_padded(m as nat, 2)
            &&& s.subrange(n + 4, n + 6) == text::decimal_padded(d as nat, 2)
            &&& s.subrange(n + 7, n + 9) == text::decimal_padded(hours as nat, 2)
            &&& s.subrange(n + 10, n + 12) == text::decimal_padded(minutes as nat, 2)
            &&& s.subrange(n + 13, n + 15) == text::decimal_padded(seconds as nat, 2)
            &&& s[n] == '-' && s[n + 3] == '-' && s[n + 6] == 'T'
            &&& s[n + 9] == ':' && s[n + 12] == ':' && s[n + 15] == 'Z'
        }),
{
    reveal_strlit("-");
    reveal_strlit("T");
    reveal_strlit(":");
    reveal_strlit("Z");
    let time = hours * 3600 + minutes * 60 + seconds;
    assert(time / 3600 == hours);
    assert(time % 3600 / 60 == minutes);
    assert(time % 60 == seconds);
    lemma_two_digits(m as nat);
    lemma_two_digits(d as nat);
    lemma_two_digits(hours as nat);
    lemma_two_digits(minutes as nat);
    lemma_two_digits(seconds as nat);
    let s = stamp(y, m, d, time);
    let n = text::decimal_padded(y as nat, 4).len() as int;
    assert(s.take(n) =~= text::decimal_padded(y as nat, 4));
    assert(s.subrange(n + 1, n + 3) =~= text::decimal_padded(m as nat, 2));
    assert(s.subrange(n + 4, n + 6) =~= text::decimal_padded(d as nat, 2));
    assert(s.subrange(n + 7, n + 9) =~= text::decimal_padded(hours as nat, 2));
    assert(s.subrange(n + 10, n + 12) =~= text::decimal_padded(minutes as nat, 2));
    assert(s.subrange(n + 13, n + 15) =~= text::decimal_padded(seconds as nat, 2));
}

/// A line ends with its message, which follows the level and a space. Before the
/// level stands the time, in brackets.
pub proof fn a_line_has_its_parts_in_order(
    line: Seq<char>,
    level: Seq<char>,
    message: Seq<char>,
    secs: nat,
    time: Seq<char>,
)
    requires
        is_line(line, level, message, secs),
        tells(secs, time),
    ensures
        ({
            let (t, n, all) = (time.len() as int, level.len() as int, line.len() as int);
            &&& all == t + n + message.len() + 4
            &&& line[0] == '['
            &&& line.subrange(1, 1 + t) == time
            &&& line[1 + t] == ']' && line[2 + t] == ' '
            &&& line.subrange(3 + t, 3 + t + n) == level
            &&& line[3 + t + n] == ' '
            &&& line.skip(all - message.len()) == message
        }),
{
    let told = choose|told: Seq<char>| #[trigger]
        tells(secs, told) && line == "["@ + told + "] "@ + level + " "@ + message;
    times_are_told_one_way(secs, told, time);
    reveal_strlit("[");
    reveal_strlit("] ");
    reveal_strlit(" ");
    let (t, n, all) = (time.len() as int, level.len() as int, line.len() as int);
    assert(line.subrange(1, 1 + t) =~= time);
    assert(line.subrange(3 + t, 3 + t + n) =~= level);
    assert(line.skip(all - message.len()) =~= message);
}

} // verus!
