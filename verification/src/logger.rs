//! The leveled, timestamped console logger: one configured timezone, three
//! severity levels, one line of standard output per call.

use vstd::prelude::*;
use std::io::Write;
use crate::datetime::{format_at, formatted_at};
use crate::clock::{current_epoch_seconds, MAX_SAFE_SECONDS_ABS};
use crate::zone::{default_zone, default_zone_name, Zone};

verus! {

/// The three severities a log line can carry.
#[derive(Clone, Copy, PartialEq, Eq, Structural, Debug)]
pub enum Level {
    Info,
    Warning,
    Error,
}

/// The tag text of a severity.
pub open spec fn level_tag(level: Level) -> Seq<char> {
    match level {
        Level::Info => "INFO"@,
        Level::Warning => "WARNING"@,
        Level::Error => "ERROR"@,
    }
}

fn level_tag_str(level: Level) -> (r: &'static str)
    ensures
        r@ == level_tag(level),
{
    match level {
        Level::Info => "INFO",
        Level::Warning => "WARNING",
        Level::Error => "ERROR",
    }
}

/// Everything of a log line that stands before the level tag: the bracketed
/// timestamp of instant `t` in the zone named `name`.
pub open spec fn line_prefix(name: Seq<char>, t: int) -> Seq<char> {
    seq!['['] + formatted_at(name, t) + seq![']', ' ', '[']
}

/// Everything of a log line that stands after the level tag: the closing
/// bracket and the message.
pub open spec fn line_suffix(message: Seq<char>) -> Seq<char> {
    seq![']', ' '] + message
}

/// A full log line: `[<timestamp>] [<LEVEL>] <message>`.
pub open spec fn log_line(name: Seq<char>, level: Level, t: int, message: Seq<char>) -> Seq<char> {
    line_prefix(name, t) + level_tag(level) + line_suffix(message)
}

/// Relies on `std::io::Stdout`'s `std::io::Write` impl (through the
/// `writeln` macro): writes the text and a newline to standard output;
/// write failures are not surfaced.
#[verifier::external_body]
fn emit_line(line: &str) {
    let _ = writeln!(std::io::stdout(), "{}", line);
}

/// A console logger configured with one timezone, fixed at construction.
pub struct Logger {
    timezone: Zone,
}

impl View for Logger {
    type V = Seq<char>;

    /// A logger is characterized by its zone's name.
    closed spec fn view(&self) -> Seq<char> {
        self.timezone@
    }
}

impl Logger {
    /// Builds a logger for the given timezone, or for the process-wide
    /// default `Europe/Warsaw` when none is supplied. Cannot fail.
    pub fn new(timezone: Option<Zone>) -> (logger: Logger)
        ensures
            logger@ == (match timezone {
                Some(z) => z@,
                None => default_zone_name(),
            }),
    {
        match timezone {
            Some(z) => Logger { timezone: z },
            None => Logger { timezone: default_zone() },
        }
    }

    /// The line the logger would write for severity `level` and `message`
    /// at instant `t`.
    pub fn render_line(&self, level: Level, t: i64, message: &str) -> (line: String)
        requires
            -MAX_SAFE_SECONDS_ABS <= t <= MAX_SAFE_SECONDS_ABS,
        ensures
            line@ == log_line(self@, level, t as int, message@),
    {
        proof {
            reveal_strlit("[");
            reveal_strlit("] [");
            reveal_strlit("] ");
        }
        let ts = format_at(&self.timezone, t);
        let mut line = String::from_str("[");
        line.append(ts.as_str());
        line.append("] [");
        line.append(level_tag_str(level));
        line.append("] ");
        line.append(message);
        proof {
            assert(line@ =~= log_line(self@, level, t as int, message@));
        }
        line
    }

    /// Writes one line for the current instant and returns it.
    fn log_now(&self, level: Level, message: &str) -> (line: String)
        ensures
            exists|t: int|
                -MAX_SAFE_SECONDS_ABS <= t <= MAX_SAFE_SECONDS_ABS && line@ == #[trigger] log_line(
                    self@,
                    level,
                    t,
                    message@,
                ),
    {
        let t = current_epoch_seconds();
        let line = self.render_line(level, t, message);
        emit_line(line.as_str());
        proof {
            assert(line@ == log_line(self@, level, t as int, message@));
        }
        line
    }

    /// Writes `[<timestamp>] [INFO] <message>` to standard output and
    /// returns the written line.
    pub fn info_log(&self, message: &str) -> (line: String)
        ensures
            exists|t: int|
                -MAX_SAFE_SECONDS_ABS <= t <= MAX_SAFE_SECONDS_ABS && line@ == #[trigger] log_line(
                    self@,
                    Level::Info,
                    t,
                    message@,
                ),
    {
        self.log_now(Level::Info, message)
    }

    /// Writes `[<timestamp>] [WARNING] <message>` to standard output and
    /// returns the written line.
    pub fn warning_log(&self, message: &str) -> (line: String)
        ensures
            exists|t: int|
                -MAX_SAFE_SECONDS_ABS <= t <= MAX_SAFE_SECONDS_ABS && line@ == #[trigger] log_line(
                    self@,
                    Level::Warning,
                    t,
                    message@,
                ),
    {
        self.log_now(Level::Warning, message)
    }

    /// Writes `[<timestamp>] [ERROR] <message>` to standard output and
    /// returns the written line.
    pub fn error_log(&self, message: &str) -> (line: String)
        ensures
            exists|t: int|
                -MAX_SAFE_SECONDS_ABS <= t <= MAX_SAFE_SECONDS_ABS && line@ == #[trigger] log_line(
                    self@,
                    Level::Error,
                    t,
                    message@,
                ),
    {
        self.log_now(Level::Error, message)
    }

    /// Writes a single empty line — no timestamp, no tag, no message — and
    /// returns the (empty) written text.
    pub fn new_line(&self) -> (line: String)
        ensures
            line@ == Seq::<char>::empty(),
    {
        let line = String::new();
        emit_line(line.as_str());
        line
    }
}

/// Law: a logger built without a timezone and one built with the default
/// zone supplied explicitly render identical timestamps and identical lines
/// at every instant.
pub proof fn lemma_default_explicit_equiv(implicit: Logger, explicit: Logger, t: int)
    requires
        implicit@ == default_zone_name(),
        explicit@ == default_zone_name(),
    ensures
        formatted_at(implicit@, t) == formatted_at(explicit@, t),
        forall|level: Level, message: Seq<char>|
            log_line(implicit@, level, t, message) == log_line(explicit@, level, t, message),
{
}

/// Law: the three severities carry pairwise distinct tags, and at one
/// instant the three lines for one message differ only in that tag — each
/// is the same prefix and suffix around its severity's tag.
pub proof fn lemma_levels_distinct(name: Seq<char>, t: int, message: Seq<char>)
    ensures
        level_tag(Level::Info) != level_tag(Level::Warning),
        level_tag(Level::Warning) != level_tag(Level::Error),
        level_tag(Level::Info) != level_tag(Level::Error),
        forall|level: Level|
            #[trigger] log_line(name, level, t, message) == line_prefix(name, t) + level_tag(level)
                + line_suffix(message),
{
    reveal_strlit("INFO");
    reveal_strlit("WARNING");
    reveal_strlit("ERROR");
    assert(level_tag(Level::Info).len() == 4);
    assert(level_tag(Level::Warning).len() == 7);
    assert(level_tag(Level::Error).len() == 5);
}

} // verus!
