//! Transparent re-execution of a single test inside an isolated container:
//! the verified core of the relaunch protocol.
//!
//! The library covers the decisions and data of the protocol — resolving the
//! test's own name from a symbol path, composing the container invocation,
//! parsing the host framework's line-delimited structured event output,
//! selecting the target test's captured output, and the suppression and
//! re-entrancy rules — while the process-level work (spawning the container,
//! installing the panic hook, reading the environment) lives outside it.

pub mod event;
pub mod guard;
pub mod identity;
pub mod launcher;
pub mod parser;
pub mod suppressor;
pub mod text;

pub use launcher::Test;

use vstd::prelude::*;

verus! {

/// The marker attribute that tells a process it is already the sandboxed copy.
pub fn sandbox_marker_name() -> (s: &'static str)
    ensures
        s@ == "SANDBOX_TESTING_RUNNING_IN_SANDBOX"@,
{
    "SANDBOX_TESTING_RUNNING_IN_SANDBOX"
}

} // verus!
