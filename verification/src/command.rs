//! What is known of a finished run of an outside command.

use vstd::prelude::*;

verus! {

/// How a command ended, as its driver saw it.
#[derive(Debug)]
pub struct CommandReport<T, E> {
    /// Whether the command reported success.
    pub success: bool,
    /// What the command wrote to its error stream, as text; the failure to read
    /// it as text otherwise.
    pub stderr: Result<String, E>,
    /// What the command's output parses to; the failure to parse it otherwise.
    pub parsed: Result<T, E>,
}

/// Why a command gave no result.
#[derive(Debug, PartialEq, Eq)]
pub enum CommandError<E> {
    /// The command reported failure, with this on its error stream.
    Rejected(String),
    /// The error stream of the command is not text.
    Unreadable(E),
    /// The output of the command does not parse.
    Malformed(E),
}

} // verus!
