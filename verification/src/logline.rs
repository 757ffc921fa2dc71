//! Severities, and the framing of one line of the diagnostic log.
//!
//! A line is `[<stamp> <LEVEL>] <message>` followed by a line feed. It is
//! written to the log in one piece, so lines of several writers may interleave
//! but never mix.

use vstd::prelude::*;
use vstd::string::*;

verus! {

/// How serious a diagnostic is, from the most serious to the least.
#[derive(Clone, Copy, Debug, PartialEq, Eq, Structural)]
pub enum Severity {
    Error,
    Warn,
    Info,
    Debug,
    Trace,
}

impl Severity {
    /// The upper-case name that stands for the severity in a log line.
    pub open spec fn label(self) -> Seq<char> {
        match self {
            Severity::Error => seq!['E', 'R', 'R', 'O', 'R'],
            Severity::Warn => seq!['W', 'A', 'R', 'N'],
            Severity::Info => seq!['I', 'N', 'F', 'O'],
            Severity::Debug => seq!['D', 'E', 'B', 'U', 'G'],
            Severity::Trace => seq!['T', 'R', 'A', 'C', 'E'],
        }
    }

    /// The upper-case name of the severity, as the `log` crate prints it.
    pub fn as_str(self) -> (name: &'static str)
        ensures
            name@ == self.label(),
    {
        level_name(self)
    }
}

/// `log::Level::as_str`, on the level of the same name: the crate's table of
/// level names gives `ERROR`, `WARN`, `INFO`, `DEBUG` and `TRACE` for its five
/// levels, and its `Display` prints the same text.
#[verifier::external_body]
fn level_name(severity: Severity) -> (name: &'static str)
    ensures
        name@ == severity.label(),
{
    let level = match severity {
        Severity::Error => log::Level::Error,
        Severity::Warn => log::Level::Warn,
        Severity::Info => log::Level::Info,
        Severity::Debug => log::Level::Debug,
        Severity::Trace => log::Level::Trace,
    };
    level.as_str()
}

/// One line of the log: the stamp and the severity's name in square brackets,
/// a space, the message, and a line feed.
pub open spec fn log_line(timestamp: Seq<char>, level: Severity, message: Seq<char>) -> Seq<char> {
    seq!['['] + timestamp + seq![' '] + level.label() + seq![']', ' '] + message + seq!['\n']
}

/// Frames `message` as one line of the log.
pub fn format_log_line(timestamp: &str, level: Severity, message: &str) -> (line: String)
    ensures
        line@ == log_line(timestamp@, level, message@),
{
    proof {
        reveal_strlit("[");
        reveal_strlit(" ");
        reveal_strlit("] ");
        reveal_strlit("\n");
    }
    let mut line = String::from_str("[");
    line.append(timestamp);
    line.append(" ");
    line.append(level.as_str());
    line.append("] ");
    line.append(message);
    line.append("\n");
    line
}

} // verus!
