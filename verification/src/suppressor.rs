//! Failure-signal suppressor: a model of the process-wide, initialize-once
//! override of the host framework's default failure-report handler.
//!
//! The override itself is installed by unverified code around the library
//! (a panic hook guarded by a once cell); the model here fixes what that
//! installation and the override's dispatch must do: installation is
//! idempotent, a failure signal carrying the sentinel payload is silenced
//! once the override is installed, and every other payload is delegated to
//! the default handler that was in effect before.

use vstd::prelude::*;

verus! {

/// The suppression state of one process: either the default handler is
/// still alone, or the single override has been installed in front of it.
#[derive(Clone, Copy, Debug, PartialEq, Eq, Structural)]
pub struct Suppressor {
    pub installed: bool,
}

/// What happens to one raised failure signal.
#[derive(Clone, Copy, Debug, PartialEq, Eq, Structural)]
pub enum Disposition {
    /// The signal carried the sentinel payload and the override is active:
    /// no default reporting action is performed.
    Silenced,
    /// The signal is handed to the default handler that was in effect
    /// before the override was installed.
    Delegated,
}

pub open spec fn spec_install(s: Suppressor) -> Suppressor {
    Suppressor { installed: true }
}

/// The state after `n` further installation requests.
pub open spec fn spec_install_n(s: Suppressor, n: nat) -> Suppressor
    decreases n,
{
    if n == 0 {
        s
    } else {
        spec_install(spec_install_n(s, (n - 1) as nat))
    }
}

pub open spec fn spec_handle(s: Suppressor, payload_is_sentinel: bool) -> Disposition {
    if s.installed && payload_is_sentinel {
        Disposition::Silenced
    } else {
        Disposition::Delegated
    }
}

impl Suppressor {
    /// The pre-override state: only the default handler is active.
    pub fn new() -> (s: Suppressor)
        ensures
            !s.installed,
    {
        Suppressor { installed: false }
    }

    /// Request installation of the override. The first request installs it;
    /// every further request leaves the already-installed state untouched.
    pub fn install(&mut self)
        ensures
            *final(self) == spec_install(*old(self)),
            final(self).installed,
            old(self).installed ==> *final(self) == *old(self),
    {
        self.installed = true;
    }

    /// Dispatch one raised failure signal: silence it only when it carries
    /// the sentinel payload and the override is installed.
    pub fn handle(&self, payload_is_sentinel: bool) -> (d: Disposition)
        ensures
            d == spec_handle(*self, payload_is_sentinel),
            d == Disposition::Silenced <==> self.installed && payload_is_sentinel,
    {
        if self.installed && payload_is_sentinel {
            Disposition::Silenced
        } else {
            Disposition::Delegated
        }
    }
}

/// Installation is idempotent: requesting it any number of times (at least
/// once) leaves exactly the state that one request leaves, so exactly one
/// override is ever active.
pub proof fn lemma_install_idempotent(s: Suppressor, n: nat)
    requires
        n >= 1,
    ensures
        spec_install_n(s, n) == spec_install(s),
    decreases n,
{
    if n > 1 {
        lemma_install_idempotent(s, (n - 1) as nat);
    }
}

/// A non-sentinel payload is dispatched exactly as the pre-override default
/// would dispatch it, however many times installation was requested.
pub proof fn lemma_non_sentinel_unchanged(s: Suppressor, n: nat)
    ensures
        spec_handle(spec_install_n(s, n), false) == Disposition::Delegated,
        spec_handle(Suppressor { installed: false }, false) == Disposition::Delegated,
    decreases n,
{
    if n > 0 {
        lemma_non_sentinel_unchanged(s, (n - 1) as nat);
    }
}

} // verus!
