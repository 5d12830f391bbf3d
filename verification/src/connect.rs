//! The connection manager's retry accounting: attempts are counted 1-based,
//! every failure backs off and raises the counter, and the manager gives up
//! as soon as the counter exceeds the configured retry bound.
use vstd::prelude::*;

verus! {

/// What the connection manager does after a failed connect attempt.
#[derive(Clone, Copy, PartialEq, Eq, Structural, Debug)]
pub enum ConnectStep {
    /// Sleep for the configured backoff, then attempt again.
    Retry,
    /// Exceeded the maximum retries: terminate with a failure status.
    GiveUp,
}

/// The decision owed after a failure has raised the attempt counter to
/// `attempts`: give up exactly when the counter exceeds the retry bound.
pub open spec fn failure_decision(attempts: int, retries: int) -> ConnectStep {
    if attempts > retries {
        ConnectStep::GiveUp
    } else {
        ConnectStep::Retry
    }
}

/// The connection manager's attempt counter, starting at 1.
pub struct ConnectAttempts {
    pub attempts: i16,
}

impl ConnectAttempts {
    pub open spec fn wf(&self) -> bool {
        1 <= self.attempts
    }

    pub fn start() -> (s: Self)
        ensures
            s.attempts == 1,
            s.wf(),
    {
        ConnectAttempts { attempts: 1 }
    }

    /// Records a failed construction or connect attempt and decides whether
    /// the manager backs off and retries or gives up.
    pub fn on_failure(&mut self, retries: i8) -> (d: ConnectStep)
        requires
            old(self).wf(),
            old(self).attempts < i16::MAX,
        ensures
            final(self).attempts == old(self).attempts + 1,
            final(self).wf(),
            d == failure_decision(final(self).attempts as int, retries as int),
            (d is GiveUp) <==> final(self).attempts as int > retries as int,
    {
        self.attempts = self.attempts + 1;
        if self.attempts > retries as i16 {
            ConnectStep::GiveUp
        } else {
            ConnectStep::Retry
        }
    }
}

/// Bounded retries: if the manager reaches its `k`-th connect attempt, it
/// must have decided `Retry` after each of the first `k - 1` failures, and
/// with a nonnegative retry bound that caps `k` at `retries + 1`.
pub proof fn lemma_connect_attempts_bounded(retries: int, k: int)
    requires
        0 <= retries,
        1 <= k,
        forall|j: int| 1 <= j < k ==> (#[trigger] failure_decision(1 + j, retries)) is Retry,
    ensures
        k <= retries + 1,
{
    if k >= 2 {
        assert(failure_decision(1 + (k - 1), retries) is Retry);
        assert(k <= retries);
    }
}

} // verus!
