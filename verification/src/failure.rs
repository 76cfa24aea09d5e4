//! Why a command line gives no command.

use vstd::prelude::*;

verus! {

/// The message of a match result that lacks a required value.
pub const INCOMPLETE: &'static str = "error: a required argument was not provided or is empty";

/// A command line that gives no [`crate::SubCommand`]. Either way the process
/// ends once `message` is shown.
#[derive(Debug, Clone, PartialEq, Eq)]
pub enum ParseFailure {
    /// The command line breaks the schema: it names an unknown subcommand, or
    /// leaves out a required argument. `message` is the usage message, for
    /// stderr, and the process ends with an error status.
    Usage { message: String },
    /// The command line asks by a flag for the help text. `message` is that
    /// text, for stdout, and the process ends with success.
    Display { message: String },
}

/// The mathematical value of a [`ParseFailure`]: which of the two it is. The
/// message is for the user and means nothing to the program.
pub enum Failure {
    Usage,
    Display,
}

impl View for ParseFailure {
    type V = Failure;

    open spec fn view(&self) -> Failure {
        match self {
            ParseFailure::Usage { .. } => Failure::Usage,
            ParseFailure::Display { .. } => Failure::Display,
        }
    }
}

impl Failure {
    /// The status that the process ends with: an error for a command line
    /// that breaks the schema, success after a text that was asked for.
    pub open spec fn exit_status(self) -> int {
        match self {
            Failure::Usage => 1,
            Failure::Display => 0,
        }
    }
}

impl ParseFailure {
    /// The characters of the message.
    pub open spec fn text(self) -> Seq<char> {
        match self {
            ParseFailure::Usage { message } => message@,
            ParseFailure::Display { message } => message@,
        }
    }

    /// The status that the process ends with once the message is shown.
    pub fn exit_status(&self) -> (status: i32)
        ensures
            status == self@.exit_status(),
    {
        match self {
            ParseFailure::Usage { .. } => 1,
            ParseFailure::Display { .. } => 0,
        }
    }

    /// The text to show: on stderr for a usage failure, on stdout otherwise.
    pub fn message(&self) -> (message: &String)
        ensures
            message@ == self.text(),
    {
        match self {
            ParseFailure::Usage { message } => message,
            ParseFailure::Display { message } => message,
        }
    }
}

/// The mathematical value of what matching a command line gives.
pub open spec fn matched_outcome(result: Result<crate::Matches, ParseFailure>) -> Result<
    crate::matches::Matched,
    Failure,
> {
    match result {
        Ok(matches) => Ok(matches@),
        Err(failure) => Err(failure@),
    }
}

/// The mathematical value of what a command line gives in the end.
pub open spec fn outcome(result: Result<crate::SubCommand, ParseFailure>) -> Result<
    crate::command::Command,
    Failure,
> {
    match result {
        Ok(command) => Ok(command@),
        Err(failure) => Err(failure@),
    }
}

} // verus!
