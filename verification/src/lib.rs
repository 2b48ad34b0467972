//! Session management core for a remote explorer: host and credential
//! resolution, the registry of open projects, interactive terminals and the
//! parsing of remote directory listings.
//!
//! The library performs no network traffic itself. Every operation that has to
//! wait for the remote side is a small state machine: it hands out the action
//! to perform and takes the outcome back as an event.

pub mod auth;
pub mod commands;
pub mod error;
pub mod models;
pub mod seqs;
pub mod ssh;
pub mod state;
pub mod text;
