//! The operations offered to the user interface. Each one that needs the
//! remote side hands out what to do there and takes the outcome back.

pub mod connection;
pub mod filesystem;
pub mod terminal;

use crate::error::{CommandError, Error};
use crate::models::CommandOutput;
use vstd::prelude::*;

verus! {

/// A command to run to its end on a session.
#[derive(Debug, Clone, PartialEq, Eq)]
pub struct Request<'a, S> {
    pub connection: &'a S,
    pub command: String,
}

/// How running a command ended.
#[derive(Debug, Clone, PartialEq, Eq)]
pub enum ExecEvent {
    /// The command ran to its end.
    Executed(CommandOutput),
    /// The transport could not run the command; the cause is its own words.
    Failed(String),
}

/// What a command that has nothing to tell but its success says of an
/// outcome.
pub open spec fn checked(event: ExecEvent) -> Result<CommandOutput, Error> {
    match event {
        ExecEvent::Executed(output) => if output.exit_status == 0 {
            Ok(output)
        } else {
            Err(
                Error::Command(
                    CommandError::Failed { exit_status: output.exit_status, stderr: output.stderr },
                ),
            )
        },
        ExecEvent::Failed(cause) => Err(Error::Command(CommandError::Transport { cause })),
    }
}

/// The output of a command that ended with status zero; an error for one that
/// ended with another status, with what it wrote to standard error, and for
/// one that the transport could not run.
pub fn check(event: ExecEvent) -> (r: Result<CommandOutput, Error>)
    ensures
        r == checked(event),
{
    match event {
        ExecEvent::Executed(output) => if output.exit_status == 0 {
            Ok(output)
        } else {
            Err(
                Error::Command(
                    CommandError::Failed { exit_status: output.exit_status, stderr: output.stderr },
                ),
            )
        },
        ExecEvent::Failed(cause) => Err(Error::Command(CommandError::Transport { cause })),
    }
}

} // verus!
