//! Several coding agents side by side, each in a git worktree of its own and
//! behind a terminal of its own.
//!
//! The library decides and keeps the books; it runs no process and touches
//! no file. What needs git, storage or a pseudo-terminal it hands to its
//! caller as a value that says what to do, and takes the outcome back.
//!
//! - [`worktree`] holds the records of the agents, the snapshot that is
//!   written to storage, and the manager of their lifecycle; [`lifecycle`]
//!   says step by step how an agent is created, removed and merged.
//! - [`pty`] holds the screen of each terminal session and the registry of
//!   the sessions that are live.
//! - [`app`] is the coordinator: tabs, key presses, and which session and
//!   agent they concern.
//! - [`naming`], [`git`], [`keys`], [`text`], [`clock`] and [`error`] hold
//!   what these are made of.

pub mod app;
pub mod clock;
pub mod error;
pub mod git;
pub mod keys;
pub mod lifecycle;
pub mod naming;
pub mod pty;
pub mod text;
pub mod worktree;
