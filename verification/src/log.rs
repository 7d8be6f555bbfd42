//! Log entries.
use vstd::prelude::*;

use crate::text::{decimal, digits_value, law_decimal, owned, push_decimal, some_text};
use crate::winpath::{child, child_path};

verus! {

/// A point of local time.
#[derive(Clone, Copy, Debug, PartialEq, Eq, Structural)]
pub struct LocalTime {
    pub year: u16,
    pub month: u16,
    pub day: u16,
    pub hour: u16,
    pub minute: u16,
    pub second: u16,
}

/// The decimal digits of `n`, with zeros in front up to `width`.
pub open spec fn padded(n: nat, width: nat) -> Seq<char> {
    if decimal(n).len() >= width {
        decimal(n)
    } else {
        Seq::new((width - decimal(n).len()) as nat, |i: int| '0') + decimal(n)
    }
}

fn push_padded(out: &mut String, n: u16, width: usize)
    ensures
        final(out)@ == old(out)@ + padded(n as nat, width as nat),
{
    let mut digits = String::new();
    push_decimal(&mut digits, n as u128);
    assert(digits@ == decimal(n as nat));
    let len = digits.as_str().unicode_len();
    if len < width {
        let zeros: usize = width - len;
        for i in 0..zeros
            invariant
                out@ == old(out)@ + Seq::new(i as nat, |k: int| '0'),
        {
            out.push('0');
            assert(out@ == old(out)@ + Seq::new((i + 1) as nat, |k: int| '0'));
        }
    }
    out.append(digits.as_str());
    assert(out@ == old(out)@ + padded(n as nat, width as nat));
}

/// A time as `2024-05-01 09:07:03`.
pub open spec fn time_text(t: LocalTime) -> Seq<char> {
    padded(t.year as nat, 4) + "-"@ + padded(t.month as nat, 2) + "-"@ + padded(t.day as nat, 2)
        + " "@ + padded(t.hour as nat, 2) + ":"@ + padded(t.minute as nat, 2) + ":"@ + padded(
        t.second as nat,
        2,
    )
}

impl LocalTime {
    /// The time as `2024-05-01 09:07:03`.
    pub fn text(&self) -> (s: String)
        ensures
            s@ == time_text(*self),
    {
        let mut s = String::new();
        push_padded(&mut s, self.year, 4);
        s.append("-");
        push_padded(&mut s, self.month, 2);
        s.append("-");
        push_padded(&mut s, self.day, 2);
        s.append(" ");
        push_padded(&mut s, self.hour, 2);
        s.append(":");
        push_padded(&mut s, self.minute, 2);
        s.append(":");
        push_padded(&mut s, self.second, 2);
        assert(s@ == time_text(*self));
        s
    }
}

/// Where log entries go, and what marks them.
#[derive(Debug, PartialEq, Eq)]
pub struct Log {
    path: String,
    tag: String,
    pid: u32,
}

/// What a log is.
pub ghost struct LogView {
    pub path: Seq<char>,
    pub tag: Seq<char>,
    pub pid: u32,
}

impl View for Log {
    type V = LogView;

    closed spec fn view(&self) -> LogView {
        LogView { path: self.path@, tag: self.tag@, pid: self.pid }
    }
}

/// The path of the log file: in the directory of the executable, else in the
/// current one.
pub open spec fn log_path(exe_dir: Option<Seq<char>>) -> Seq<char> {
    match exe_dir {
        Some(dir) => child(dir, "zed-reload.log"@),
        None => child("."@, "zed-reload.log"@),
    }
}

/// A line of the log.
pub open spec fn log_line(
    log: LogView,
    level: Seq<char>,
    time: LocalTime,
    message: Seq<char>,
) -> Seq<char> {
    "["@ + time_text(time) + "] ["@ + log.tag + "] ["@ + level + "] [pid "@ + decimal(
        log.pid as nat,
    ) + "] "@ + message
}

impl Log {
    /// The log of the process `pid`, whose executable stands in `exe_dir`; `tag`
    /// marks its entries.
    pub fn new(exe_dir: &Option<String>, tag: &str, pid: u32) -> (log: Log)
        ensures
            log@ == (LogView { path: log_path(some_text(*exe_dir)), tag: tag@, pid }),
    {
        let path = match exe_dir {
            Some(dir) => child_path(dir.as_str(), "zed-reload.log"),
            None => child_path(".", "zed-reload.log"),
        };
        Log { path, tag: owned(tag), pid }
    }

    /// The line for a message at a time.
    pub fn info(&self, time: &LocalTime, msg: &str) -> (line: String)
        ensures
            line@ == log_line(self@, "INFO"@, *time, msg@),
    {
        self.emit("INFO", time, msg)
    }

    /// The line for an error at a time.
    pub fn error(&self, time: &LocalTime, msg: &str) -> (line: String)
        ensures
            line@ == log_line(self@, "ERROR"@, *time, msg@),
    {
        self.emit("ERROR", time, msg)
    }

    /// The path of the log file.
    pub fn path(&self) -> (path: &String)
        ensures
            path@ == self@.path,
    {
        &self.path
    }

    fn emit(&self, level: &str, time: &LocalTime, msg: &str) -> (line: String)
        ensures
            line@ == log_line(self@, level@, *time, msg@),
    {
        let mut line = owned("[");
        let now = time.text();
        line.append(now.as_str());
        line.append("] [");
        line.append(self.tag.as_str());
        line.append("] [");
        line.append(level);
        line.append("] [pid ");
        push_decimal(&mut line, self.pid as u128);
        line.append("] ");
        line.append(msg);
        line
    }
}

// ---------------------------------------------------------------------------
// laws
// ---------------------------------------------------------------------------

proof fn lemma_zeros(n: nat, digits: Seq<char>)
    ensures
        digits_value(Seq::new(n, |i: int| '0') + digits) == digits_value(digits),
    decreases digits.len(), n,
{
    let zeros = Seq::new(n, |i: int| '0');
    let all = zeros + digits;
    if digits.len() > 0 {
        assert(all.drop_last() == zeros + digits.drop_last());
        assert(all.last() == digits.last());
        lemma_zeros(n, digits.drop_last());
    } else if n > 0 {
        let fewer = Seq::new((n - 1) as nat, |i: int| '0');
        assert(all.drop_last() == fewer + digits);
        assert(all.last() == '0');
        lemma_zeros((n - 1) as nat, digits);
    } else {
        assert(all == digits);
    }
}

/// Zeros in front fill a number up to the width, and change neither its value nor
/// a number that is wider.
pub proof fn law_padded(n: nat, width: nat)
    ensures
        digits_value(padded(n, width)) == n,
        padded(n, width).len() == if decimal(n).len() < width {
            width
        } else {
            decimal(n).len()
        },
        decimal(n).is_suffix_of(padded(n, width)),
{
    let digits = decimal(n);
    let all = padded(n, width);
    law_decimal(n);
    if digits.len() < width {
        lemma_zeros((width - digits.len()) as nat, digits);
    }
    assert(all.subrange(all.len() - digits.len(), all.len() as int) == digits);
}

/// A time is its year in four digits, month and day, then hour, minute and second
/// in two digits each.
pub proof fn law_time_text(t: LocalTime)
    requires
        t.year < 10000,
        t.month < 100,
        t.day < 100,
        t.hour < 100,
        t.minute < 100,
        t.second < 100,
    ensures
        time_text(t).len() == 19,
        digits_value(time_text(t).subrange(0, 4)) == t.year,
        digits_value(time_text(t).subrange(5, 7)) == t.month,
        digits_value(time_text(t).subrange(8, 10)) == t.day,
        digits_value(time_text(t).subrange(11, 13)) == t.hour,
        digits_value(time_text(t).subrange(14, 16)) == t.minute,
        digits_value(time_text(t).subrange(17, 19)) == t.second,
        time_text(t)[4] == '-',
        time_text(t)[7] == '-',
        time_text(t)[10] == ' ',
        time_text(t)[13] == ':',
        time_text(t)[16] == ':',
{
    reveal_strlit("-");
    reveal_strlit(" ");
    reveal_strlit(":");
    lemma_narrow(t.year as nat, 4);
    lemma_narrow(t.month as nat, 2);
    lemma_narrow(t.day as nat, 2);
    lemma_narrow(t.hour as nat, 2);
    lemma_narrow(t.minute as nat, 2);
    lemma_narrow(t.second as nat, 2);
    let s = time_text(t);
    assert(s.subrange(0, 4) == padded(t.year as nat, 4));
    assert(s.subrange(5, 7) == padded(t.month as nat, 2));
    assert(s.subrange(8, 10) == padded(t.day as nat, 2));
    assert(s.subrange(11, 13) == padded(t.hour as nat, 2));
    assert(s.subrange(14, 16) == padded(t.minute as nat, 2));
    assert(s.subrange(17, 19) == padded(t.second as nat, 2));
}

proof fn lemma_narrow(n: nat, width: nat)
    requires
        (width == 4 && n < 10000) || (width == 2 && n < 100),
    ensures
        padded(n, width).len() == width,
        digits_value(padded(n, width)) == n,
{
    law_padded(n, width);
    reveal_with_fuel(decimal, 5);
}

/// A time is written from its numbers, whatever they are.
pub proof fn law_time_from_numbers(t: LocalTime)
    ensures
        time_text(t) == padded(t.year as nat, 4) + seq!['-'] + padded(t.month as nat, 2) + seq!['-']
            + padded(t.day as nat, 2) + seq![' '] + padded(t.hour as nat, 2) + seq![':'] + padded(
            t.minute as nat,
            2,
        ) + seq![':'] + padded(t.second as nat, 2),
{
    reveal_strlit("-");
    reveal_strlit(" ");
    reveal_strlit(":");
    assert("-"@ == seq!['-']);
    assert(" "@ == seq![' ']);
    assert(":"@ == seq![':']);
}

/// A line of the log holds the time, the tag, the level, the process and the
/// message, in this order.
pub proof fn law_log_line(log: LogView, level: Seq<char>, time: LocalTime, message: Seq<char>)
    ensures
        log_line(log, level, time, message) == log_line(log, level, time, Seq::empty()) + message,
        log_line(log, level, time, Seq::empty()) == "["@ + time_text(time) + "] ["@ + log.tag
            + "] ["@ + level + "] [pid "@ + decimal(log.pid as nat) + "] "@,
{
    let head = "["@ + time_text(time) + "] ["@ + log.tag + "] ["@ + level + "] [pid "@ + decimal(
        log.pid as nat,
    ) + "] "@;
    assert(head + Seq::<char>::empty() == head);
}

/// The log file stands in the directory of the executable, else in the current
/// one.
pub proof fn law_log_path(dir: Seq<char>)
    ensures
        log_path(Some(dir)) == child(dir, "zed-reload.log"@),
        log_path(None) == seq!['.', '\\'] + "zed-reload.log"@,
{
    reveal_strlit(".");
    let here = "."@;
    assert(here == seq!['.']);
    assert(here.push('\\') + "zed-reload.log"@ == seq!['.', '\\'] + "zed-reload.log"@);
}

} // verus!
