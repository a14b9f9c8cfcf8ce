use vstd::prelude::*;

verus! {

/// The lifecycle state of a transfer job, as reported by the engine.
#[derive(Clone, Copy, Debug, PartialEq, Eq, Structural)]
pub enum JobState {
    Queued,
    Connecting,
    Transferring,
    Suspended,
    Error,
    TransientError,
    Transferred,
    Acknowledged,
    Cancelled,
}

impl JobState {
    /// No transition leaves a terminal state.
    pub open spec fn spec_is_terminal(self) -> bool {
        self == JobState::Acknowledged || self == JobState::Cancelled
    }

    /// The two states that carry an error context.
    pub open spec fn spec_is_error(self) -> bool {
        self == JobState::Error || self == JobState::TransientError
    }

    /// States in which the engine is still working towards the end of the
    /// transfer, so that a watcher keeps polling.
    pub open spec fn spec_is_in_progress(self) -> bool {
        self == JobState::Connecting || self == JobState::Transferring || self
            == JobState::TransientError
    }

    /// The transitions of the job lifecycle.
    pub open spec fn spec_can_transition(self, to: JobState) -> bool {
        match (self, to) {
            (JobState::Queued, JobState::Connecting) => true,
            (JobState::Connecting, JobState::Transferring) => true,
            (JobState::Transferring, JobState::Transferred) => true,
            (JobState::Connecting, JobState::TransientError) => true,
            (JobState::Transferring, JobState::TransientError) => true,
            (JobState::Connecting, JobState::Error) => true,
            (JobState::Transferring, JobState::Error) => true,
            // the engine retries a transient fault on its own schedule
            (JobState::TransientError, JobState::Connecting) => true,
            (JobState::Transferred, JobState::Acknowledged) => true,
            // throttling suspends an active job, resume queues it again
            (JobState::Queued, JobState::Suspended) => true,
            (JobState::Connecting, JobState::Suspended) => true,
            (JobState::Transferring, JobState::Suspended) => true,
            (JobState::Suspended, JobState::Queued) => true,
            (JobState::Error, JobState::Queued) => true,
            (JobState::TransientError, JobState::Queued) => true,
            (from, JobState::Cancelled) => !from.spec_is_terminal(),
            _ => false,
        }
    }

    pub fn is_terminal(&self) -> (r: bool)
        ensures
            r == self.spec_is_terminal(),
    {
        match self {
            JobState::Acknowledged | JobState::Cancelled => true,
            _ => false,
        }
    }

    pub fn is_error(&self) -> (r: bool)
        ensures
            r == self.spec_is_error(),
    {
        match self {
            JobState::Error | JobState::TransientError => true,
            _ => false,
        }
    }

    pub fn is_in_progress(&self) -> (r: bool)
        ensures
            r == self.spec_is_in_progress(),
    {
        match self {
            JobState::Connecting | JobState::Transferring | JobState::TransientError => true,
            _ => false,
        }
    }

    pub fn can_transition(&self, to: JobState) -> (r: bool)
        ensures
            r == self.spec_can_transition(to),
    {
        match (*self, to) {
            (JobState::Queued, JobState::Connecting) => true,
            (JobState::Connecting, JobState::Transferring) => true,
            (JobState::Transferring, JobState::Transferred) => true,
            (JobState::Connecting, JobState::TransientError) => true,
            (JobState::Transferring, JobState::TransientError) => true,
            (JobState::Connecting, JobState::Error) => true,
            (JobState::Transferring, JobState::Error) => true,
            (JobState::TransientError, JobState::Connecting) => true,
            (JobState::Transferred, JobState::Acknowledged) => true,
            (JobState::Queued, JobState::Suspended) => true,
            (JobState::Connecting, JobState::Suspended) => true,
            (JobState::Transferring, JobState::Suspended) => true,
            (JobState::Suspended, JobState::Queued) => true,
            (JobState::Error, JobState::Queued) => true,
            (JobState::TransientError, JobState::Queued) => true,
            (from, JobState::Cancelled) => !from.is_terminal(),
            _ => false,
        }
    }
}

/// Nothing leaves a terminal state: every transition starts in a live one.
pub proof fn lemma_terminal_states_are_final(from: JobState, to: JobState)
    requires
        from.spec_is_terminal(),
    ensures
        !from.spec_can_transition(to),
{
}

} // verus!
