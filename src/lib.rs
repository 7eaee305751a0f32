//! Command construction and output interpretation for a desktop front end
//! that drives the `myssh` command-line tool.
//!
//! The front end never talks SSH itself: every operation becomes one run of
//! the external tool. This library decides which arguments that run gets and
//! what the caller is told once it has finished.
pub mod args;
pub mod invoke;
pub mod profiles;
pub mod text;
