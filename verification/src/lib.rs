//! Core of a command-line assistant that turns natural-language requests into
//! shell commands or answers: prompt templates and their resolution, the
//! provider-independent handling of completion requests and replies, and the
//! state machines that decide what happens to a generated command.

pub mod backend;
pub mod command;
pub mod config;
pub mod error;
pub mod pattern;
pub mod processor;
pub mod system;
pub mod template;

pub use error::Error;
