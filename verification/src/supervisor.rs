//! The connection supervisor's decisions: whether to attempt a connection,
//! and what to do with each failed session.

use vstd::prelude::*;
use crate::error::ProxyError;

verus! {

/// What the supervisor does after a failed connection or session.
pub enum SupervisorDisposition {
    /// Log a warning only, then retry after the backoff: the auth service
    /// refused the validator, which is expected on hot spares, and the
    /// server's message is not safe to report as a metric.
    WarnOnly,
    /// Report the error datapoint with the running failure count, then retry
    /// after the backoff.
    ReportAndBackoff { error_count: u64 },
}

/// The supervisor's state across sessions: how many reportable failures
/// have happened.
pub struct Supervisor {
    pub error_count: u64,
}

impl Supervisor {
    /// A fresh supervisor with no failures seen.
    pub fn new() -> (r: Supervisor)
        ensures
            r.error_count == 0,
    {
        Supervisor { error_count: 0 }
    }

    /// Decides what a failed connection or session leads to: a permission
    /// denial is warned about and not counted; every other error bumps the
    /// count and is reported with it.
    pub fn on_session_error(&mut self, error: &ProxyError) -> (r: SupervisorDisposition)
        requires
            old(self).error_count < u64::MAX,
        ensures
            (error is AuthenticationPermissionDenied) ==> (r is WarnOnly && *final(self) == *old(
                self,
            )),
            !(error is AuthenticationPermissionDenied) ==> (final(self).error_count == old(
                self,
            ).error_count + 1 && r == (SupervisorDisposition::ReportAndBackoff {
                error_count: final(self).error_count,
            })),
    {
        match error {
            ProxyError::AuthenticationPermissionDenied => SupervisorDisposition::WarnOnly,
            _ => {
                self.error_count = self.error_count + 1;
                SupervisorDisposition::ReportAndBackoff { error_count: self.error_count }
            },
        }
    }
}

} // verus!
