//! Backend logic of a playground service for a compiled proof language.
//!
//! Untrusted source snippets are materialized into an ephemeral workspace,
//! driven through a fixed toolchain pipeline (`check`, `test`, `prove`,
//! `verify`), and the raw process outcomes are classified into uniform
//! success or error responses.  The modules here hold the decision logic of
//! that flow; process spawning and HTTP plumbing live outside the library
//! and interact with it through the [`session::Session`] state machine.

pub mod challenges;
pub mod params;
pub mod pipeline;
pub mod session;
pub mod text;
pub mod workspace;
