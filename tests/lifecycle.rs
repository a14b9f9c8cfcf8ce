use transfer_jobs::controller::{Command, EngineCall, JobController, JobRecord};
use transfer_jobs::error::Error;
use transfer_jobs::identity::JobIdentity;
use transfer_jobs::monitor::{Monitor, PollStep};
use transfer_jobs::report::{ErrorContext, StatusReport};
use transfer_jobs::state::JobState;

const JOB: u128 = 0x0123_4567_89ab_cdef_0011_2233_4455_6677;

fn job() -> JobIdentity {
    JobIdentity::new(JOB)
}

fn report(state: JobState, done: u64, total: Option<u64>, code: i32) -> StatusReport {
    StatusReport::new(job(), state, done, total, code)
}

fn state_of(step: PollStep) -> JobState {
    match step {
        PollStep::Ready(r) => r.state(),
        other => panic!("expected a report, got {:?}", other),
    }
}

#[test]
fn error_context_only_in_error_states() {
    let all = [
        JobState::Queued,
        JobState::Connecting,
        JobState::Transferring,
        JobState::Suspended,
        JobState::Error,
        JobState::TransientError,
        JobState::Transferred,
        JobState::Acknowledged,
        JobState::Cancelled,
    ];
    for s in all {
        let r = report(s, 0, None, -7);
        let expected = s == JobState::Error || s == JobState::TransientError;
        assert_eq!(r.error_context().is_some(), expected);
        if expected {
            assert_eq!(r.error_context(), Some(ErrorContext { code: -7 }));
        }
    }
}

#[test]
fn report_keeps_its_fields() {
    let r = report(JobState::Transferring, 12, Some(40), 0);
    assert_eq!(r.job(), job());
    assert_eq!(r.state(), JobState::Transferring);
    assert_eq!(r.bytes_transferred(), 12);
    assert_eq!(r.bytes_total(), Some(40));
}

#[test]
fn lifecycle_transitions() {
    assert!(JobState::Queued.can_transition(JobState::Connecting));
    assert!(JobState::Connecting.can_transition(JobState::Transferring));
    assert!(JobState::Transferring.can_transition(JobState::Transferred));
    assert!(JobState::Transferred.can_transition(JobState::Acknowledged));
    assert!(JobState::Connecting.can_transition(JobState::TransientError));
    assert!(JobState::Transferring.can_transition(JobState::Error));
    assert!(JobState::Suspended.can_transition(JobState::Cancelled));
    assert!(!JobState::Queued.can_transition(JobState::Transferred));
    assert!(!JobState::Transferred.can_transition(JobState::Transferring));
    assert!(!JobState::Cancelled.can_transition(JobState::Cancelled));
    assert!(!JobState::Acknowledged.can_transition(JobState::Cancelled));
    assert!(JobState::Cancelled.is_terminal());
    assert!(!JobState::Transferred.is_terminal());
    assert!(JobState::TransientError.is_in_progress());
    assert!(!JobState::Transferred.is_in_progress());
}

#[test]
fn latched_report_returns_at_once_even_with_zero_timeout() {
    let mut m = Monitor::attach(job(), report(JobState::Queued, 0, None, 0), 10_000, 0);
    assert_eq!(state_of(m.poll(0, 0, 0)), JobState::Queued);
    // nothing latched: a zero bound is a plain poll
    assert_eq!(m.poll(0, 0, 0), PollStep::Failed(Error::Timeout));
}

#[test]
fn poll_waits_no_longer_than_its_bound() {
    let mut m = Monitor::attach(job(), report(JobState::Queued, 0, None, 0), 10_000, 0);
    m.poll(0, 0, 1000);
    assert_eq!(m.poll(0, 0, 1000), PollStep::Wait(1000));
    assert_eq!(m.poll(600, 0, 1000), PollStep::Wait(400));
    assert_eq!(m.poll(1000, 0, 1000), PollStep::Failed(Error::Timeout));
    assert_eq!(m.poll(1500, 0, 1000), PollStep::Failed(Error::Timeout));
}

#[test]
fn newer_notification_replaces_unread_one() {
    let mut m = Monitor::attach(job(), report(JobState::Queued, 0, None, 0), 10_000, 0);
    assert!(m.notify(report(JobState::Connecting, 0, None, 0)));
    assert!(m.notify(report(JobState::Transferring, 5, Some(9), 0)));
    let got = match m.poll(10, 10, 1000) {
        PollStep::Ready(r) => r,
        other => panic!("{:?}", other),
    };
    assert_eq!(got.state(), JobState::Transferring);
    assert_eq!(got.bytes_transferred(), 5);
    assert!(!m.has_pending());
}

#[test]
fn notification_for_another_job_is_not_latched() {
    let mut m = Monitor::attach(job(), report(JobState::Queued, 0, None, 0), 10_000, 0);
    m.poll(0, 0, 0);
    let other = StatusReport::new(JobIdentity::new(1), JobState::Transferred, 1, Some(1), 0);
    assert!(!m.notify(other));
    assert!(!m.has_pending());
}

#[test]
fn interval_elapsed_asks_for_a_refresh() {
    let mut m = Monitor::attach(job(), report(JobState::Queued, 0, None, 0), 100, 0);
    m.poll(0, 0, 1000);
    assert_eq!(m.poll(40, 40, 1000), PollStep::Wait(60));
    assert_eq!(m.poll(100, 40, 1000), PollStep::Refresh);
    assert_eq!(m.poll(100, 100, 1000), PollStep::Wait(100));
}

#[test]
fn completed_job_scenario() {
    // the source answers after 500ms with the bytes of "payload"
    let n: u64 = 7;
    let mut c = JobController::new();
    let mut m = c.start(job(), 100, 0).unwrap();
    assert_eq!(state_of(m.poll(0, 0, 1000)), JobState::Queued);
    m.notify(report(JobState::Connecting, 0, None, 0));
    let first = m.poll(5, 5, 1000);
    let s = state_of(first);
    assert!(s == JobState::Connecting || s == JobState::Transferring);
    if let PollStep::Ready(r) = first {
        c.observe(&r);
    }
    m.notify(report(JobState::Transferred, n, Some(n), 0));
    let last = match m.poll(500, 500, 1000) {
        PollStep::Ready(r) => r,
        other => panic!("{:?}", other),
    };
    assert_eq!(last.state(), JobState::Transferred);
    assert_eq!(last.bytes_transferred(), n);
    assert_eq!(last.bytes_total(), Some(n));
    c.observe(&last);
    assert_eq!(c.check(job(), Command::Complete), Ok(EngineCall::Complete));
    assert_eq!(c.commit(job(), Command::Complete, Ok(())), Ok(()));
    assert_eq!(c.record(job()).unwrap().state, JobState::Acknowledged);
}

#[test]
fn complete_succeeds_only_once() {
    let mut c = JobController::new();
    let _m = c.start(job(), 100, 0).unwrap();
    assert_eq!(
        c.commit(job(), Command::Complete, Ok(())),
        Err(Error::InvalidStateForOperation)
    );
    c.observe(&report(JobState::Transferred, 3, Some(3), 0));
    assert_eq!(c.commit(job(), Command::Complete, Ok(())), Ok(()));
    assert_eq!(
        c.commit(job(), Command::Complete, Ok(())),
        Err(Error::InvalidStateForOperation)
    );
    // the engine's word on the job does not reopen it
    c.observe(&report(JobState::Transferred, 3, Some(3), 0));
    assert_eq!(
        c.check(job(), Command::Complete),
        Err(Error::InvalidStateForOperation)
    );
    assert_eq!(c.check(job(), Command::Cancel), Err(Error::NotFound));
}

#[test]
fn permanent_error_scenario() {
    // the source always answers 404
    let mut c = JobController::new();
    let mut m = c.start(job(), 10_000, 0).unwrap();
    assert_eq!(state_of(m.poll(0, 0, 1000)), JobState::Queued);
    m.notify(report(JobState::Error, 0, None, 404));
    let r = match m.poll(100, 0, 1000) {
        PollStep::Ready(r) => r,
        other => panic!("{:?}", other),
    };
    assert_eq!(r.state(), JobState::Error);
    assert_eq!(r.error_context(), Some(ErrorContext { code: 404 }));
    c.observe(&r);
    assert_eq!(c.cancel(job(), Ok(()), &mut m), Ok(()));
    assert_eq!(c.record(job()), None);
}

#[test]
fn cancel_disconnects_monitor_and_forgets_job() {
    let mut c = JobController::new();
    let mut m = c.start(job(), 10_000, 0).unwrap();
    assert_eq!(state_of(m.poll(0, 0, 60_000)), JobState::Queued);
    assert_eq!(c.cancel(job(), Ok(()), &mut m), Ok(()));
    assert!(!m.is_connected());
    assert_eq!(m.poll(250, 0, 60_000), PollStep::Failed(Error::NotConnected));
    assert!(!m.notify(report(JobState::Transferred, 1, Some(1), 0)));
    assert_eq!(m.poll(300, 0, 60_000), PollStep::Failed(Error::NotConnected));
    for cmd in [
        Command::SetPriority { foreground: true },
        Command::Resume,
        Command::Complete,
        Command::Cancel,
        Command::SetUpdateInterval { interval_ms: 5 },
    ] {
        assert_eq!(c.commit(job(), cmd, Ok(())), Err(Error::NotFound));
    }
}

#[test]
fn interval_change_takes_effect_at_next_check() {
    let mut c = JobController::new();
    let mut m = c.start(job(), 10_000, 0).unwrap();
    assert_eq!(state_of(m.poll(0, 0, 1000)), JobState::Queued);
    assert_eq!(m.poll(0, 0, 1000), PollStep::Wait(1000));
    // at 250ms the interval drops to 500ms
    assert_eq!(
        c.commit(job(), Command::SetUpdateInterval { interval_ms: 500 }, Ok(())),
        Ok(())
    );
    m.set_interval(500);
    let wait = match m.poll(250, 0, 1000) {
        PollStep::Wait(ms) => ms,
        other => panic!("{:?}", other),
    };
    let next = 250 + wait;
    assert!(next > 400 && next < 750);
    assert_eq!(m.poll(next, 0, 1000), PollStep::Refresh);
    assert_eq!(c.record(job()).unwrap().interval_ms, 500);
}

#[test]
fn notification_before_first_poll_is_not_lost() {
    let mut c = JobController::new();
    let mut m = c.start(job(), 10_000, 0).unwrap();
    // the engine finishes before anyone polls
    m.notify(report(JobState::Connecting, 0, None, 0));
    m.notify(report(JobState::Transferred, 8, Some(8), 0));
    assert_eq!(state_of(m.poll(1, 1, 0)), JobState::Transferred);
}

#[test]
fn commands_on_unknown_job_are_not_found() {
    let mut c = JobController::new();
    assert_eq!(c.check(job(), Command::Resume), Err(Error::NotFound));
    assert_eq!(c.commit(job(), Command::Cancel, Ok(())), Err(Error::NotFound));
}

#[test]
fn starting_a_known_job_again_fails() {
    let mut c = JobController::new();
    assert!(c.start(job(), 10, 0).is_ok());
    assert!(matches!(c.start(job(), 10, 0), Err(Error::InvalidStateForOperation)));
}

#[test]
fn resume_only_acts_on_stopped_jobs() {
    let mut c = JobController::new();
    let _m = c.start(job(), 10, 0).unwrap();
    assert_eq!(c.check(job(), Command::Resume), Ok(EngineCall::Nothing));
    for s in [JobState::Suspended, JobState::Error, JobState::TransientError] {
        c.observe(&report(s, 0, None, 1));
        assert_eq!(c.check(job(), Command::Resume), Ok(EngineCall::Resume));
    }
    c.observe(&report(JobState::Transferring, 1, None, 0));
    assert_eq!(c.commit(job(), Command::Resume, Err(-1)), Ok(()));
}

#[test]
fn engine_failure_is_passed_on_unchanged() {
    let mut c = JobController::new();
    let _m = c.start(job(), 10, 0).unwrap();
    assert_eq!(
        c.commit(job(), Command::SetPriority { foreground: true }, Err(-2147024894)),
        Err(Error::EngineError { code: -2147024894 })
    );
    assert_eq!(
        c.record(job()),
        Some(JobRecord { state: JobState::Queued, foreground: false, interval_ms: 10 })
    );
    assert_eq!(
        c.commit(job(), Command::SetPriority { foreground: true }, Ok(())),
        Ok(())
    );
    assert!(c.record(job()).unwrap().foreground);
}
