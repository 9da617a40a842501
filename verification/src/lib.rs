//! A command-line wrapper generator.
//!
//! A declarative configuration names a wrapped executable and, for each
//! argument of the wrapper's own command line, the token that stands for it on
//! the wrapped program's command line. This library validates such a
//! configuration, translates the arguments that were matched on one invocation
//! into the wrapped program's argument vector, and decides how the wrapper
//! terminates once the wrapped program has run.

pub mod config;
pub mod document;
pub mod invoke;
pub mod matches;
pub mod translate;
