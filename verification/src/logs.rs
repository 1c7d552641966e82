//! Log handling for game instances: parsing the `[HH:MM:SS]
//! [Thread/LEVEL]: message` line format, level filtering, message search
//! and display formatting, plus the cursor state of a tailing log watcher.
//! Opening files and polling them belongs to the shell; it hands lines in
//! and takes parsed entries back.

use vstd::prelude::*;
use vstd::string::StrSliceExecFns;
use vstd::string::StringExecFns;
use crate::text::chars_of;
use crate::text::find_char;
use crate::text::find_index;
use crate::text::lemma_find_index_at;
use crate::text::lemma_find_index_none;
use crate::text::lower_of;
use crate::text::seq_contains;
use crate::text::str_eq;
use crate::text::to_lowercase;
use crate::text::to_uppercase;
use crate::text::upper_of;

verus! {

/// A log line's severity.
#[derive(Clone, Copy, Debug, PartialEq, Eq, Structural)]
pub enum LogLevel {
    Debug,
    Info,
    Warn,
    Error,
    Fatal,
    Unknown,
}

/// The display name of a level.
pub open spec fn level_str(l: LogLevel) -> Seq<char> {
    match l {
        LogLevel::Debug => "DEBUG"@,
        LogLevel::Info => "INFO"@,
        LogLevel::Warn => "WARN"@,
        LogLevel::Error => "ERROR"@,
        LogLevel::Fatal => "FATAL"@,
        LogLevel::Unknown => "???"@,
    }
}

impl LogLevel {
    /// The display name of this level.
    pub fn as_str(&self) -> (r: &'static str)
        ensures
            r@ == level_str(*self),
    {
        match self {
            LogLevel::Debug => "DEBUG",
            LogLevel::Info => "INFO",
            LogLevel::Warn => "WARN",
            LogLevel::Error => "ERROR",
            LogLevel::Fatal => "FATAL",
            LogLevel::Unknown => "???",
        }
    }
}

/// How severe a level is, for filtering; unparsed lines count as Info.
pub open spec fn priority_spec(l: LogLevel) -> u8 {
    match l {
        LogLevel::Debug => 0,
        LogLevel::Info => 1,
        LogLevel::Warn => 2,
        LogLevel::Error => 3,
        LogLevel::Fatal => 4,
        LogLevel::Unknown => 1,
    }
}

/// How severe a level is, for filtering.
pub fn level_priority(level: LogLevel) -> (r: u8)
    ensures
        r == priority_spec(level),
{
    match level {
        LogLevel::Debug => 0,
        LogLevel::Info => 1,
        LogLevel::Warn => 2,
        LogLevel::Error => 3,
        LogLevel::Fatal => 4,
        LogLevel::Unknown => 1,
    }
}

/// One parsed log line.
#[derive(Debug, Clone)]
pub struct LogEntry {
    /// Timestamp text (e.g. `10:30:45`), when the line carried one.
    pub timestamp: Option<String>,
    /// Severity parsed from the line.
    pub level: LogLevel,
    /// Thread or logger name, when the line carried one.
    pub thread: Option<String>,
    /// The message itself.
    pub message: String,
    /// The raw line as read.
    pub raw: String,
    /// One-based line number in the file.
    pub line_number: u64,
}

/// One log file on disk, as the shell lists it.
#[derive(Debug, Clone)]
pub struct LogFile {
    pub name: String,
    pub path: String,
    pub size: u64,
    pub modified: u64,
    pub is_current: bool,
}

/// The log files of one game run.
#[derive(Debug, Clone)]
pub struct LogSession {
    pub profile_id: String,
    pub files: Vec<LogFile>,
    pub started: Option<u64>,
}

/// The cursor of a log tailer: where in the file the next read starts.
#[derive(Debug, Clone)]
pub struct LogWatcher {
    pub path: String,
    pub position: u64,
    pub line_number: u64,
}

impl LogWatcher {
    /// A watcher that reads the file from its beginning.
    pub fn from_start(path: String) -> (w: LogWatcher)
        ensures
            w.path@ == path@,
            w.position == 0,
            w.line_number == 0,
    {
        LogWatcher { path, position: 0, line_number: 0 }
    }

    /// The cursor to resume from after a read: the new position, or the
    /// start of the file when it shrank (rotation or truncation).
    pub fn advance(&mut self, current_size: u64) -> (reset: bool)
        ensures
            reset == (current_size < old(self).position),
            final(self).position == (if current_size < old(self).position {
                0u64
            } else {
                old(self).position
            }),
            final(self).line_number == (if current_size < old(self).position {
                0u64
            } else {
                old(self).line_number
            }),
            final(self).path == old(self).path,
    {
        if current_size < self.position {
            self.position = 0;
            self.line_number = 0;
            true
        } else {
            false
        }
    }
}

/// What `str::trim_start` removes: a function of the characters alone.
pub uninterp spec fn trimmed_of(s: Seq<char>) -> Seq<char>;

/// Relies on str::trim_start: the input with leading whitespace removed —
/// a suffix of the input, determined by the characters alone.
#[verifier::external_body]
fn trim_start(s: &str) -> (r: &str)
    ensures
        r@ == trimmed_of(s@),
        r@.len() <= s@.len() && r@ == s@.subrange(s@.len() - r@.len(), s@.len() as int),
{
    s.trim_start()
}

/// The last occurrence of `c` in `s`, if any.
pub open spec fn rfind_index(s: Seq<char>, c: char) -> Option<int>
    decreases s.len(),
{
    if s.len() == 0 {
        Option::None
    } else if s.last() == c {
        Option::Some(s.len() - 1)
    } else {
        rfind_index(s.drop_last(), c)
    }
}

proof fn lemma_rfind_index_at(s: Seq<char>, c: char, i: int)
    requires
        0 <= i < s.len(),
        s[i] == c,
        forall|k: int| i < k < s.len() ==> s[k] != c,
    ensures
        rfind_index(s, c) == Option::Some(i),
    decreases s.len(),
{
    if i < s.len() - 1 {
        assert forall|k: int| i < k < s.drop_last().len() implies s.drop_last()[k] != c by {
            assert(s.drop_last()[k] == s[k]);
        }
        assert(s.drop_last()[i] == s[i]);
        lemma_rfind_index_at(s.drop_last(), c, i);
    }
}

proof fn lemma_rfind_index_none(s: Seq<char>, c: char)
    requires
        forall|k: int| 0 <= k < s.len() ==> s[k] != c,
    ensures
        rfind_index(s, c) == Option::<int>::None,
    decreases s.len(),
{
    if s.len() > 0 {
        assert forall|k: int| 0 <= k < s.drop_last().len() implies s.drop_last()[k] != c by {
            assert(s.drop_last()[k] == s[k]);
        }
        lemma_rfind_index_none(s.drop_last(), c);
    }
}

/// The last occurrence of `c` in `v`, if any.
fn rfind_char(v: &Vec<char>, c: char) -> (r: Option<usize>)
    ensures
        match r {
            Some(i) => i < v@.len() && v@[i as int] == c && rfind_index(v@, c) == Option::Some(
                i as int,
            ),
            None => rfind_index(v@, c) is None,
        },
{
    let n = v.len();
    let mut i: usize = n;
    while i > 0
        invariant
            i <= n,
            n == v@.len(),
            forall|k: int| i <= k < n ==> v@[k] != c,
        decreases i,
    {
        i = i - 1;
        if v[i] == c {
            proof {
                lemma_rfind_index_at(v@, c, i as int);
            }
            return Some(i);
        }
    }
    proof {
        lemma_rfind_index_none(v@, c);
    }
    None
}

/// The level a (upper-cased) level word denotes.
pub open spec fn parse_level(up: Seq<char>) -> LogLevel {
    if up == "DEBUG"@ {
        LogLevel::Debug
    } else if up == "INFO"@ {
        LogLevel::Info
    } else if up == "WARN"@ || up == "WARNING"@ {
        LogLevel::Warn
    } else if up == "ERROR"@ {
        LogLevel::Error
    } else if up == "FATAL"@ {
        LogLevel::Fatal
    } else {
        LogLevel::Unknown
    }
}

/// The pieces of a line in the standard format `[time] [thread/LEVEL]:
/// message`: timestamp, thread-and-level text, and raw message text.
pub open spec fn std_parse(line: Seq<char>) -> Option<(Seq<char>, Seq<char>, Seq<char>)> {
    if line.len() > 0 && line[0] == '[' {
        let rest = line.subrange(1, line.len() as int);
        match find_index(rest, ']') {
            Option::Some(te) => {
                let after = trimmed_of(rest.subrange(te + 1, rest.len() as int));
                if after.len() > 0 && after[0] == '[' {
                    let rest2 = after.subrange(1, after.len() as int);
                    match find_index(rest2, ']') {
                        Option::Some(be) => Option::Some(
                            (
                                rest.subrange(0, te),
                                rest2.subrange(0, be),
                                rest2.subrange(be + 1, rest2.len() as int),
                            ),
                        ),
                        Option::None => Option::None,
                    }
                } else {
                    Option::None
                }
            },
            Option::None => Option::None,
        }
    } else {
        Option::None
    }
}

/// The thread name in a thread-and-level text: everything before the last
/// slash, or all of it when there is none.
pub open spec fn thread_of(tl: Seq<char>) -> Seq<char> {
    match rfind_index(tl, '/') {
        Option::Some(sp) => tl.subrange(0, sp),
        Option::None => tl,
    }
}

/// The level in a thread-and-level text: the word after the last slash,
/// upper-cased; unknown without a slash.
pub open spec fn level_in(tl: Seq<char>) -> LogLevel {
    match rfind_index(tl, '/') {
        Option::Some(sp) => parse_level(upper_of(tl.subrange(sp + 1, tl.len() as int))),
        Option::None => LogLevel::Unknown,
    }
}

/// The message in the raw text after the brackets: trimmed, with one
/// leading colon dropped and trimmed again.
pub open spec fn message_of(ms: Seq<char>) -> Seq<char> {
    let m1 = trimmed_of(ms);
    if m1.len() > 0 && m1[0] == ':' {
        trimmed_of(m1.subrange(1, m1.len() as int))
    } else {
        m1
    }
}

/// What parsing one line yields.
pub open spec fn entry_parses(line: Seq<char>, num: u64, e: LogEntry) -> bool {
    e.raw@ == line && e.line_number == num && (match std_parse(line) {
        Option::Some(t) => (match e.timestamp {
            Option::Some(ts) => ts@ == t.0,
            Option::None => false,
        }) && (match e.thread {
            Option::Some(th) => th@ == thread_of(t.1),
            Option::None => false,
        }) && e.level == level_in(t.1) && e.message@ == message_of(t.2),
        Option::None => e.timestamp is None && e.level == LogLevel::Unknown && e.thread is None
            && e.message@ == line,
    })
}

/// Parse one log line: the standard `[time] [thread/LEVEL]: message`
/// format when it fits, else the whole line as an unknown-level message.
pub fn parse_log_line(line: &str, line_number: u64) -> (e: LogEntry)
    ensures
        entry_parses(line@, line_number, e),
{
    let v = chars_of(line);
    let n = v.len();
    let ghost rest = line@.subrange(1, line@.len() as int);
    if n > 0 && v[0] == '[' {
        let te = match find_char(&v, 1, ']') {
            Some(i) => {
                proof {
                    assert(rest[i - 1] == v@[i as int]);
                    assert forall|k: int| 0 <= k < i - 1 implies rest[k] != ']' by {
                        assert(rest[k] == v@[k + 1]);
                    }
                    lemma_find_index_at(rest, ']', i - 1);
                }
                i
            },
            None => {
                proof {
                    assert forall|k: int| 0 <= k < rest.len() implies rest[k] != ']' by {
                        assert(rest[k] == v@[k + 1]);
                    }
                    lemma_find_index_none(rest, ']');
                }
                return fallback_entry(line, line_number);
            },
        };
        let timestamp = String::from_str(line.substring_char(1, te));
        proof {
            assert(timestamp@ =~= rest.subrange(0, te - 1));
        }
        let after_raw = line.substring_char(te + 1, n);
        proof {
            assert(after_raw@ =~= rest.subrange(te - 1 + 1, rest.len() as int));
        }
        let after = trim_start(after_raw);
        let av = chars_of(after);
        let an = av.len();
        let ghost rest2 = after@.subrange(1, after@.len() as int);
        if an > 0 && av[0] == '[' {
            let be = match find_char(&av, 1, ']') {
                Some(i) => {
                    proof {
                        assert(rest2[i - 1] == av@[i as int]);
                        assert forall|k: int| 0 <= k < i - 1 implies rest2[k] != ']' by {
                            assert(rest2[k] == av@[k + 1]);
                        }
                        lemma_find_index_at(rest2, ']', i - 1);
                    }
                    i
                },
                None => {
                    proof {
                        assert forall|k: int| 0 <= k < rest2.len() implies rest2[k] != ']' by {
                            assert(rest2[k] == av@[k + 1]);
                        }
                        lemma_find_index_none(rest2, ']');
                    }
                    return fallback_entry(line, line_number);
                },
            };
            let tl = after.substring_char(1, be);
            proof {
                assert(tl@ =~= rest2.subrange(0, be - 1));
            }
            let msg_start = after.substring_char(be + 1, an);
            proof {
                assert(msg_start@ =~= rest2.subrange(be - 1 + 1, rest2.len() as int));
            }
            let tlv = chars_of(tl);
            let (thread, level) = match rfind_char(&tlv, '/') {
                Some(sp) => {
                    let th = String::from_str(tl.substring_char(0, sp));
                    let level_word = tl.substring_char(sp + 1, tlv.len());
                    let up = to_uppercase(level_word);
                    let u = up.as_str();
                    let lv = if str_eq(u, "DEBUG") {
                        LogLevel::Debug
                    } else if str_eq(u, "INFO") {
                        LogLevel::Info
                    } else if str_eq(u, "WARN") || str_eq(u, "WARNING") {
                        LogLevel::Warn
                    } else if str_eq(u, "ERROR") {
                        LogLevel::Error
                    } else if str_eq(u, "FATAL") {
                        LogLevel::Fatal
                    } else {
                        LogLevel::Unknown
                    };
                    (th, lv)
                },
                None => (String::from_str(tl), LogLevel::Unknown),
            };
            let m1 = trim_start(msg_start);
            let mv = chars_of(m1);
            let message = if mv.len() > 0 && mv[0] == ':' {
                let m2 = trim_start(m1.substring_char(1, mv.len()));
                String::from_str(m2)
            } else {
                String::from_str(m1)
            };
            LogEntry {
                timestamp: Some(timestamp),
                level,
                thread: Some(thread),
                message,
                raw: String::from_str(line),
                line_number,
            }
        } else {
            fallback_entry(line, line_number)
        }
    } else {
        fallback_entry(line, line_number)
    }
}

/// The entry for a line outside the standard format: the whole line as the
/// message.
fn fallback_entry(line: &str, line_number: u64) -> (e: LogEntry)
    requires
        std_parse(line@) is None,
    ensures
        entry_parses(line@, line_number, e),
{
    LogEntry {
        timestamp: None,
        level: LogLevel::Unknown,
        thread: None,
        message: String::from_str(line),
        raw: String::from_str(line),
        line_number,
    }
}

/// Parse a block of already-split lines, numbering them from one.
pub fn parse_lines(lines: &Vec<String>) -> (r: Vec<LogEntry>)
    requires
        lines@.len() < u64::MAX,
    ensures
        r@.len() == lines@.len(),
        forall|i: int|
            0 <= i < lines@.len() ==> entry_parses(lines@[i]@, (i + 1) as u64, #[trigger] r@[i]),
{
    let n = lines.len();
    let mut out: Vec<LogEntry> = Vec::new();
    let mut i: usize = 0;
    while i < n
        invariant
            i <= n,
            n == lines@.len(),
            n < u64::MAX,
            out@.len() == i,
            forall|k: int|
                0 <= k < i ==> entry_parses(lines@[k]@, (k + 1) as u64, #[trigger] out@[k]),
        decreases n - i,
    {
        let e = parse_log_line(lines[i].as_str(), (i as u64) + 1);
        out.push(e);
        i = i + 1;
    }
    out
}

/// A field-for-field copy of an entry.
fn copy_entry(e: &LogEntry) -> (o: LogEntry)
    ensures
        o == *e,
{
    LogEntry {
        timestamp: crate::model::copy_opt_string(&e.timestamp),
        level: e.level,
        thread: crate::model::copy_opt_string(&e.thread),
        message: e.message.clone(),
        raw: e.raw.clone(),
        line_number: e.line_number,
    }
}

/// The last `lines` entries of a parsed log.
pub fn read_log_tail(entries: &Vec<LogEntry>, lines: usize) -> (r: Vec<LogEntry>)
    ensures
        r@ == entries@.subrange(
            if entries@.len() >= lines {
                entries@.len() - lines
            } else {
                0
            },
            entries@.len() as int,
        ),
{
    let n = entries.len();
    let start: usize = if n >= lines {
        n - lines
    } else {
        0
    };
    let mut out: Vec<LogEntry> = Vec::new();
    let mut i: usize = start;
    while i < n
        invariant
            start <= i <= n,
            n == entries@.len(),
            out@ == entries@.subrange(start as int, i as int),
        decreases n - i,
    {
        out.push(copy_entry(&entries[i]));
        assert(out@ =~= entries@.subrange(start as int, i + 1 as int));
        i = i + 1;
    }
    proof {
        assert(out@ =~= entries@.subrange(start as int, n as int));
    }
    out
}

/// The entries at or above a severity, in order.
pub open spec fn filtered_by_level(s: Seq<LogEntry>, min: LogLevel) -> Seq<LogEntry>
    decreases s.len(),
{
    if s.len() == 0 {
        Seq::empty()
    } else if priority_spec(s[0].level) >= priority_spec(min) {
        seq![s[0]] + filtered_by_level(s.drop_first(), min)
    } else {
        filtered_by_level(s.drop_first(), min)
    }
}

/// Keep the entries at or above a severity.
pub fn filter_by_level(entries: &Vec<LogEntry>, min_level: LogLevel) -> (r: Vec<LogEntry>)
    ensures
        r@ == filtered_by_level(entries@, min_level),
{
    let min_priority = level_priority(min_level);
    let n = entries.len();
    let mut out: Vec<LogEntry> = Vec::new();
    let mut i: usize = 0;
    proof {
        assert(entries@.subrange(0, n as int) =~= entries@);
        assert(out@ + filtered_by_level(entries@.subrange(0, n as int), min_level)
            =~= filtered_by_level(entries@, min_level));
    }
    while i < n
        invariant
            i <= n,
            n == entries@.len(),
            min_priority == priority_spec(min_level),
            filtered_by_level(entries@, min_level) == out@ + filtered_by_level(
                entries@.subrange(i as int, n as int),
                min_level,
            ),
        decreases n - i,
    {
        proof {
            assert(entries@.subrange(i as int, n as int)[0] == entries@[i as int]);
            assert(entries@.subrange(i as int, n as int).drop_first() =~= entries@.subrange(
                i + 1 as int,
                n as int,
            ));
        }
        if level_priority(entries[i].level) >= min_priority {
            let e = copy_entry(&entries[i]);
            proof {
                assert(out@.push(e) + filtered_by_level(
                    entries@.subrange(i + 1 as int, n as int),
                    min_level,
                ) =~= out@ + (seq![entries@[i as int]] + filtered_by_level(
                    entries@.subrange(i + 1 as int, n as int),
                    min_level,
                )));
            }
            out.push(e);
        }
        i = i + 1;
    }
    proof {
        assert(filtered_by_level(entries@.subrange(n as int, n as int), min_level) =~= Seq::<
            LogEntry,
        >::empty());
        assert(out@ + Seq::<LogEntry>::empty() =~= out@);
    }
    out
}

/// The entries whose message contains the query, ignoring case.
pub open spec fn matching_entries(s: Seq<LogEntry>, query: Seq<char>) -> Seq<LogEntry>
    decreases s.len(),
{
    if s.len() == 0 {
        Seq::empty()
    } else if seq_contains(lower_of(s[0].message@), lower_of(query)) {
        seq![s[0]] + matching_entries(s.drop_first(), query)
    } else {
        matching_entries(s.drop_first(), query)
    }
}

/// Keep the entries whose message contains the query, ignoring case.
pub fn search_logs(entries: &Vec<LogEntry>, query: &str) -> (r: Vec<LogEntry>)
    ensures
        r@ == matching_entries(entries@, query@),
{
    let query_lower = to_lowercase(query);
    let n = entries.len();
    let mut out: Vec<LogEntry> = Vec::new();
    let mut i: usize = 0;
    proof {
        assert(entries@.subrange(0, n as int) =~= entries@);
        assert(out@ + matching_entries(entries@.subrange(0, n as int), query@) =~= matching_entries(
            entries@,
            query@,
        ));
    }
    while i < n
        invariant
            i <= n,
            n == entries@.len(),
            query_lower@ == lower_of(query@),
            matching_entries(entries@, query@) == out@ + matching_entries(
                entries@.subrange(i as int, n as int),
                query@,
            ),
        decreases n - i,
    {
        proof {
            assert(entries@.subrange(i as int, n as int)[0] == entries@[i as int]);
            assert(entries@.subrange(i as int, n as int).drop_first() =~= entries@.subrange(
                i + 1 as int,
                n as int,
            ));
        }
        let msg_lower = to_lowercase(entries[i].message.as_str());
        let hit = crate::text::str_contains(msg_lower.as_str(), query_lower.as_str());
        if hit {
            let e = copy_entry(&entries[i]);
            proof {
                assert(out@.push(e) + matching_entries(
                    entries@.subrange(i + 1 as int, n as int),
                    query@,
                ) =~= out@ + (seq![entries@[i as int]] + matching_entries(
                    entries@.subrange(i + 1 as int, n as int),
                    query@,
                )));
            }
            out.push(e);
        }
        i = i + 1;
    }
    proof {
        assert(matching_entries(entries@.subrange(n as int, n as int), query@) =~= Seq::<
            LogEntry,
        >::empty());
        assert(out@ + Seq::<LogEntry>::empty() =~= out@);
    }
    out
}

/// The escape sequence that colors a level on a terminal.
pub open spec fn level_color(l: LogLevel) -> Seq<char> {
    match l {
        LogLevel::Debug => "\u{1b}[90m"@,
        LogLevel::Info => "\u{1b}[37m"@,
        LogLevel::Warn => "\u{1b}[33m"@,
        LogLevel::Error => "\u{1b}[31m"@,
        LogLevel::Fatal => "\u{1b}[91m"@,
        LogLevel::Unknown => "\u{1b}[90m"@,
    }
}

/// What formatting an entry yields: with a timestamp, the bracketed
/// timestamp and level before the message (colored on request); without
/// one, the message alone (wrapped in the level color on request).
pub open spec fn formatted(e: LogEntry, colored: bool) -> Seq<char> {
    if colored {
        match e.timestamp {
            Option::Some(ts) => "\u{1b}[90m["@ + ts@ + "]\u{1b}[0m "@ + level_color(e.level) + "["@
                + level_str(e.level) + "]\u{1b}[0m "@ + e.message@,
            Option::None => level_color(e.level) + e.message@ + "\u{1b}[0m"@,
        }
    } else {
        match e.timestamp {
            Option::Some(ts) => "["@ + ts@ + "] ["@ + level_str(e.level) + "] "@ + e.message@,
            Option::None => e.message@,
        }
    }
}

/// Format one entry for display, with optional terminal colors.
pub fn format_entry(entry: &LogEntry, colored: bool) -> (r: String)
    ensures
        r@ == formatted(*entry, colored),
{
    let color = match entry.level {
        LogLevel::Debug => "\u{1b}[90m",
        LogLevel::Info => "\u{1b}[37m",
        LogLevel::Warn => "\u{1b}[33m",
        LogLevel::Error => "\u{1b}[31m",
        LogLevel::Fatal => "\u{1b}[91m",
        LogLevel::Unknown => "\u{1b}[90m",
    };
    if colored {
        match &entry.timestamp {
            Some(ts) => {
                let mut out = String::from_str("\u{1b}[90m[");
                out.append(ts.as_str());
                out.append("]\u{1b}[0m ");
                out.append(color);
                out.append("[");
                out.append(entry.level.as_str());
                out.append("]\u{1b}[0m ");
                out.append(entry.message.as_str());
                proof {
                    assert(out@ =~= formatted(*entry, colored));
                }
                out
            },
            None => {
                let mut out = String::from_str(color);
                out.append(entry.message.as_str());
                out.append("\u{1b}[0m");
                proof {
                    assert(out@ =~= formatted(*entry, colored));
                }
                out
            },
        }
    } else {
        match &entry.timestamp {
            Some(ts) => {
                let mut out = String::from_str("[");
                out.append(ts.as_str());
                out.append("] [");
                out.append(entry.level.as_str());
                out.append("] ");
                out.append(entry.message.as_str());
                proof {
                    assert(out@ =~= formatted(*entry, colored));
                }
                out
            },
            None => {
                let out = entry.message.clone();
                out
            },
        }
    }
}

} // verus!
