//! The errors that the operations of the library return.

use crate::auth::AuthError;
use crate::ssh::ConnectError;
use crate::text::{decimal, push_decimal};
use vstd::prelude::*;
use vstd::string::*;

verus! {

/// A key or an id that names nothing in the registry.
#[derive(Debug, Clone, Copy, PartialEq, Eq)]
pub enum LookupError {
    /// No project has the key.
    ProjectNotFound,
    /// The project has no terminal with the id.
    TerminalNotFound,
}

impl LookupError {
    /// The text shown to the user.
    pub fn message(&self) -> (m: String)
        ensures
            m@ == match *self {
                LookupError::ProjectNotFound => "Project not found"@,
                LookupError::TerminalNotFound => "Terminal not found"@,
            },
    {
        match self {
            LookupError::ProjectNotFound => "Project not found".to_string(),
            LookupError::TerminalNotFound => "Terminal not found".to_string(),
        }
    }
}

/// A remote command that did not do its work.
#[derive(Debug, Clone, PartialEq, Eq)]
pub enum CommandError {
    /// The command ran and ended with a status other than zero.
    Failed { exit_status: u32, stderr: String },
    /// The transport could not run the command, or could not deliver input.
    Transport { cause: String },
    /// The terminal has no running shell to take input.
    NoActiveShell,
    /// The command's output is not in the form expected of it.
    InvalidOutput,
}

impl CommandError {
    /// The text shown to the user.
    pub fn message(&self) -> (m: String)
        ensures
            m@ == match *self {
                CommandError::Failed { exit_status, stderr } => "Command failed with exit status "@
                    + decimal(exit_status as nat) + ": "@ + stderr@,
                CommandError::Transport { cause } => "SSH command failed - "@ + cause@,
                CommandError::NoActiveShell => "No active shell session"@,
                CommandError::InvalidOutput => "Invalid command output"@,
            },
    {
        match self {
            CommandError::Failed { exit_status, stderr } => {
                let mut m = "Command failed with exit status ".to_string();
                push_decimal(&mut m, *exit_status);
                m.append(": ");
                m.append(stderr.as_str());
                m
            },
            CommandError::Transport { cause } => {
                let mut m = "SSH command failed - ".to_string();
                m.append(cause.as_str());
                m
            },
            CommandError::NoActiveShell => "No active shell session".to_string(),
            CommandError::InvalidOutput => "Invalid command output".to_string(),
        }
    }
}

/// Any error of the library.
#[derive(Debug, Clone, PartialEq, Eq)]
pub enum Error {
    /// The credentials could not be resolved.
    Auth(AuthError),
    /// The connection could not be made.
    Connect(ConnectError),
    /// A remote command failed.
    Command(CommandError),
    /// A project or a terminal was not found.
    Lookup(LookupError),
    /// A project with the same key is registered already.
    DuplicateKey,
    /// An event arrived that the operation was not waiting for.
    UnexpectedEvent,
}

impl Error {
    /// The text shown to the user.
    pub fn message(&self) -> (m: String)
        ensures
            m@ == match *self {
                Error::Auth(e) => e.message_text(),
                Error::Connect(e) => "SSH connection failed - "@ + e.cause@,
                Error::Command(e) => match e {
                    CommandError::Failed { exit_status, stderr } =>
                        "Command failed with exit status "@ + decimal(exit_status as nat) + ": "@
                            + stderr@,
                    CommandError::Transport { cause } => "SSH command failed - "@ + cause@,
                    CommandError::NoActiveShell => "No active shell session"@,
                    CommandError::InvalidOutput => "Invalid command output"@,
                },
                Error::Lookup(e) => match e {
                    LookupError::ProjectNotFound => "Project not found"@,
                    LookupError::TerminalNotFound => "Terminal not found"@,
                },
                Error::DuplicateKey => "Project key already in use"@,
                Error::UnexpectedEvent => "Unexpected event"@,
            },
    {
        match self {
            Error::Auth(e) => e.message(),
            Error::Connect(e) => e.message(),
            Error::Command(e) => e.message(),
            Error::Lookup(e) => e.message(),
            Error::DuplicateKey => "Project key already in use".to_string(),
            Error::UnexpectedEvent => "Unexpected event".to_string(),
        }
    }
}

} // verus!
