//! Watch a directory tree for file-system changes and, after a configurable
//! period of quiescence, run an external command exactly once per burst of
//! activity, passing the set of changed paths if requested.
//!
//! The heart of the library is the debounce scheduler in [`scheduler`],
//! which coalesces a bursty stream of accepted change notifications into
//! single, well-timed, non-overlapping command invocations.  [`filter`]
//! drops changed paths the configured pattern matches, [`dispatcher`]
//! builds the command invocation and decides the post-exit policy,
//! [`args`] holds the configuration and its parser, and [`watch`] ties
//! them together into the decision core the surrounding program drives.
pub mod args;
pub mod dispatcher;
pub mod filter;
pub mod help;
pub mod scheduler;
pub mod watch;

use vstd::prelude::*;

verus! {

/// How deep the watch on the root directory reaches.
#[derive(Clone, Copy, PartialEq, Eq, Structural, Debug)]
pub enum RecursionMode {
    Recursive,
    NonRecursive,
}

} // verus!
