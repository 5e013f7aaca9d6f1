//! Verified core of a command-line helper that opens GitHub pull requests
//! from a local git checkout.
//!
//! The library holds everything with decision content: the rules that turn
//! user-typed text into a commit message, branch name and pull-request title;
//! the parsers that read a repository slug and a default branch out of git
//! metadata; the shaping of the GitHub API requests (URLs and JSON bodies);
//! and the state machine that sequences the external steps and makes the
//! abort and fail-fast guarantees precise. Prompting, process spawning,
//! credential files and the HTTP calls themselves live outside the library
//! and hand it plain values.

pub mod api;
pub mod builder;
pub mod flow;
pub mod gitmeta;
pub mod text;
