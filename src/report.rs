use vstd::prelude::*;

use crate::identity::JobIdentity;
use crate::state::JobState;

verus! {

/// What the engine said about a failed job.
#[derive(Clone, Copy, Debug, PartialEq, Eq, Structural)]
pub struct ErrorContext {
    /// The engine's failure code, carried through uninterpreted.
    pub code: i32,
}

/// A snapshot of one job at one moment.
///
/// A report carries an error context exactly when its state is one of the
/// two error states; every constructor keeps to that.
#[derive(Clone, Copy, Debug, PartialEq, Eq, Structural)]
pub struct StatusReport {
    job: JobIdentity,
    state: JobState,
    bytes_transferred: u64,
    bytes_total: Option<u64>,
    error_context: Option<ErrorContext>,
}

impl StatusReport {
    #[verifier::type_invariant]
    spec fn error_context_matches_state(self) -> bool {
        self.error_context.is_some() <==> self.state.spec_is_error()
    }

    pub closed spec fn spec_job(self) -> JobIdentity {
        self.job
    }

    pub closed spec fn spec_state(self) -> JobState {
        self.state
    }

    pub closed spec fn spec_bytes_transferred(self) -> u64 {
        self.bytes_transferred
    }

    pub closed spec fn spec_bytes_total(self) -> Option<u64> {
        self.bytes_total
    }

    pub closed spec fn spec_error_context(self) -> Option<ErrorContext> {
        self.error_context
    }

    /// Builds a report. `error_code` is kept only where the state is an error
    /// state, and ignored otherwise.
    pub fn new(
        job: JobIdentity,
        state: JobState,
        bytes_transferred: u64,
        bytes_total: Option<u64>,
        error_code: i32,
    ) -> (r: StatusReport)
        ensures
            r.spec_job() == job,
            r.spec_state() == state,
            r.spec_bytes_transferred() == bytes_transferred,
            r.spec_bytes_total() == bytes_total,
            r.spec_error_context() == (if state.spec_is_error() {
                Some(ErrorContext { code: error_code })
            } else {
                None::<ErrorContext>
            }),
    {
        let error_context = if state.is_error() {
            Some(ErrorContext { code: error_code })
        } else {
            None
        };
        StatusReport { job, state, bytes_transferred, bytes_total, error_context }
    }

    pub fn job(&self) -> (r: JobIdentity)
        ensures
            r == self.spec_job(),
    {
        self.job
    }

    pub fn state(&self) -> (r: JobState)
        ensures
            r == self.spec_state(),
    {
        self.state
    }

    pub fn bytes_transferred(&self) -> (r: u64)
        ensures
            r == self.spec_bytes_transferred(),
    {
        self.bytes_transferred
    }

    pub fn bytes_total(&self) -> (r: Option<u64>)
        ensures
            r == self.spec_bytes_total(),
    {
        self.bytes_total
    }

    pub fn error_context(&self) -> (r: Option<ErrorContext>)
        ensures
            r == self.spec_error_context(),
            r.is_some() <==> self.spec_state().spec_is_error(),
    {
        proof {
            use_type_invariant(self);
        }
        self.error_context
    }
}

} // verus!
