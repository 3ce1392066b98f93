//! Lines for the daemon's log.

use vstd::prelude::*;

verus! {

/// How much a log line matters.
#[derive(Clone, Copy, Debug, PartialEq, Eq, Structural)]
pub enum Level {
    Debug,
    Info,
    Warn,
}

/// A line for the log.
#[derive(Debug, PartialEq, Eq)]
pub struct LogLine {
    pub level: Level,
    pub message: String,
}

/// A line for the log, as a value.
pub struct Entry {
    pub level: Level,
    pub message: Seq<char>,
}

impl View for LogLine {
    type V = Entry;

    open spec fn view(&self) -> Entry {
        Entry { level: self.level, message: self.message@ }
    }
}

/// The lines of a log, as values.
pub open spec fn entries(lines: Seq<LogLine>) -> Seq<Entry> {
    lines.map_values(|line: LogLine| line@)
}

pub open spec fn debug_entry(message: Seq<char>) -> Entry {
    Entry { level: Level::Debug, message }
}

pub open spec fn info_entry(message: Seq<char>) -> Entry {
    Entry { level: Level::Info, message }
}

pub open spec fn warn_entry(message: Seq<char>) -> Entry {
    Entry { level: Level::Warn, message }
}

/// A line stands for its level and its message, and a list of lines for each of them, in
/// order. Entries have the level that they are named for, and the message that they are given.
pub proof fn law_lines_stand_for_what_they_hold(lines: Seq<LogLine>, i: int, message: Seq<char>)
    requires
        0 <= i < lines.len(),
    ensures
        entries(lines).len() == lines.len(),
        entries(lines)[i].level == lines[i].level,
        entries(lines)[i].message == lines[i].message@,
        lines[i]@.level == lines[i].level,
        lines[i]@.message == lines[i].message@,
        debug_entry(message).level is Debug && debug_entry(message).message == message,
        info_entry(message).level is Info && info_entry(message).message == message,
        warn_entry(message).level is Warn && warn_entry(message).message == message,
{
}

} // verus!
