//! Scripted fake terminal sessions.
//!
//! A script describes a session call by call. The recorder ([`lie`]) turns
//! the calls into a tree of actions ([`fib`]) and refuses what breaks the
//! rules of a session: a tag name given twice, a screen inside a screen, a
//! command that is really run where none may be. The compiler ([`tale`])
//! flattens the tree into steps and notes where the tags point. The
//! playback engine ([`tell`]) walks the steps as a state machine: a driver
//! carries out what the engine asks for (show this, wait for a key, run that
//! command) and reports back, and the engine sees to it that no command is
//! run twice, however the operator jumps about. The dry run ([`dry_run`])
//! writes a session out as text.

pub use crate::error::MendaxError;

pub mod args;
pub mod bookmarks;
pub mod dry_run;
pub mod error;
pub mod fib;
pub mod lie;
pub mod source;
pub mod speed;
pub mod style;
pub mod tale;
pub mod tell;
pub mod text;
