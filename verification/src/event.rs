//! The typed record decoded from one line of the host framework's
//! structured event output.

use vstd::prelude::*;
use crate::text::str_eq;

verus! {

/// The mathematical value of an [`Event`].
pub enum EventV {
    Suite { phase: Seq<char> },
    Test { phase: Seq<char>, name: Seq<char>, stdout: Option<Seq<char>> },
}

/// One decoded structured event: either a suite-level lifecycle record or a
/// per-test record. `stdout` is present only on terminal phases and holds
/// everything the test printed during its run.
#[derive(Debug)]
pub enum Event {
    Suite { phase: String },
    Test { phase: String, name: String, stdout: Option<String> },
}

impl View for Event {
    type V = EventV;

    open spec fn view(&self) -> EventV {
        match self {
            Event::Suite { phase } => EventV::Suite { phase: phase@ },
            Event::Test { phase, name, stdout } => EventV::Test {
                phase: phase@,
                name: name@,
                stdout: stdout.deep_view(),
            },
        }
    }
}

impl DeepView for Event {
    type V = EventV;

    open spec fn deep_view(&self) -> EventV {
        self.view()
    }
}

/// A terminal phase marks a finished test, successful or not.
pub open spec fn spec_is_terminal_phase(phase: Seq<char>) -> bool {
    phase == "ok"@ || phase == "failed"@
}

/// Whether a phase string marks a finished test.
pub fn is_terminal_phase(phase: &str) -> (r: bool)
    ensures
        r == spec_is_terminal_phase(phase@),
{
    str_eq(phase, "ok") || str_eq(phase, "failed")
}

} // verus!
