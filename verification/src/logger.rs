//! Where the messages of a run go.

use crate::text::{decimal_text, push_decimal};
use std::io::Write;
use vstd::prelude::*;
use vstd::string::StringExecFns;

verus! {

/// Takes the messages and the progress of a run. Nothing is promised of what
/// an implementation does with them.
pub trait ProgressLogger {
    /// Takes a message.
    fn log(&self, message: String);

    /// Takes a step of progress: the step, the number of steps, and a message.
    fn progress(&self, current: usize, total: usize, message: String);
}

/// Writes every message as a line on the standard output.
pub struct ConsoleLogger;

/// The line for a step of progress: the step and the number of steps in square
/// brackets, then the message.
pub open spec fn progress_line(current: usize, total: usize, message: Seq<char>) -> Seq<char> {
    "["@ + decimal_text(current as nat) + "/"@ + decimal_text(total as nat) + "] "@ + message
}

/// Calls `writeln!` on the standard output. A failure to write is ignored.
#[verifier::external_body]
fn print_line(line: &str) {
    let _ = writeln!(std::io::stdout(), "{}", line);
}

impl ConsoleLogger {
    /// The line that is written for a step of progress.
    pub fn progress_text(current: usize, total: usize, message: &str) -> (line: String)
        ensures
            line@ == progress_line(current, total, message@),
    {
        let mut line = "[".to_owned();
        push_decimal(&mut line, current as u64);
        line.append("/");
        push_decimal(&mut line, total as u64);
        line.append("] ");
        line.append(message);
        line
    }
}

impl ProgressLogger for ConsoleLogger {
    fn log(&self, message: String) {
        print_line(message.as_str());
    }

    fn progress(&self, current: usize, total: usize, message: String) {
        let line = ConsoleLogger::progress_text(current, total, message.as_str());
        print_line(line.as_str());
    }
}

} // verus!
