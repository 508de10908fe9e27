//! A library for creating bots the handsome way: snippet handlers look at a
//! message and decide whether, and what, to run; an executor hands each
//! message to its handlers in turn and sends back what the runner produced.

use vstd::prelude::*;

pub mod bot;
pub mod cmd;
pub mod executor;
pub mod haskell_bot;
pub mod jobs;
pub mod reply;
pub mod runner;
pub mod snippets;
pub mod text;
pub mod utils;

pub use runner::{Either, Mismatch, MismatchView, OutputView, Runner, RunnerOutput};

verus! {
} // verus!
