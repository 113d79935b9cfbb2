//! How the bot's log is written.

use vstd::prelude::*;

verus! {

/// A line of the log: the level and the target in brackets, and the message.
pub fn log_line(level: &str, target: &str, message: &str) -> (line: String)
    ensures
        line@ == "["@ + level@ + "]["@ + target@ + "] "@ + message@,
{
    "[".to_owned().concat(level).concat("][").concat(target).concat("] ").concat(message)
}

} // verus!
