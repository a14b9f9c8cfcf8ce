use std::collections::HashMap;

use vstd::prelude::*;

use crate::error::Error;
use crate::identity::JobIdentity;
use crate::monitor::{
    lemma_disconnected_monitor_stays_cut_off, Monitor, MonitorView, PollStep,
};
use crate::report::StatusReport;
use crate::state::JobState;

verus! {

broadcast use vstd::std_specs::hash::group_hash_axioms;

/// What the controller knows of one job.
#[derive(Clone, Copy, Debug, PartialEq, Eq, Structural)]
pub struct JobRecord {
    /// The state last reported by the engine.
    pub state: JobState,
    pub foreground: bool,
    pub interval_ms: u32,
}

/// A command addressed to one job.
#[derive(Clone, Copy, Debug, PartialEq, Eq, Structural)]
pub enum Command {
    SetPriority { foreground: bool },
    Resume,
    Complete,
    Cancel,
    SetUpdateInterval { interval_ms: u32 },
}

/// The request that a valid command makes of the transfer engine.
#[derive(Clone, Copy, Debug, PartialEq, Eq, Structural)]
pub enum EngineCall {
    /// The command has nothing to do in the job's state.
    Nothing,
    SetPriority { foreground: bool },
    Resume,
    Complete,
    Cancel,
    SetUpdateInterval { interval_ms: u32 },
}

/// Whether `cmd` may be sent to job `id`, and what it asks of the engine.
pub open spec fn spec_check(t: Map<u128, JobRecord>, id: u128, cmd: Command) -> Result<
    EngineCall,
    Error,
> {
    if !t.contains_key(id) {
        Err(Error::NotFound)
    } else if t[id].state.spec_is_terminal() {
        if t[id].state == JobState::Acknowledged && cmd == Command::Complete {
            Err(Error::InvalidStateForOperation)
        } else {
            Err(Error::NotFound)
        }
    } else {
        match cmd {
            Command::SetPriority { foreground } => Ok(EngineCall::SetPriority { foreground }),
            Command::Resume => if t[id].state == JobState::Suspended || t[id].state.spec_is_error() {
                Ok(EngineCall::Resume)
            } else {
                Ok(EngineCall::Nothing)
            },
            Command::Complete => if t[id].state == JobState::Transferred {
                Ok(EngineCall::Complete)
            } else {
                Err(Error::InvalidStateForOperation)
            },
            Command::Cancel => Ok(EngineCall::Cancel),
            Command::SetUpdateInterval { interval_ms } => Ok(
                EngineCall::SetUpdateInterval { interval_ms },
            ),
        }
    }
}

/// The table after the engine carried out `cmd` on job `id`.
pub open spec fn spec_applied(t: Map<u128, JobRecord>, id: u128, cmd: Command) -> Map<
    u128,
    JobRecord,
> {
    match cmd {
        Command::SetPriority { foreground } => t.insert(id, JobRecord { foreground, ..t[id] }),
        Command::Resume => t,
        Command::Complete => t.insert(id, JobRecord { state: JobState::Acknowledged, ..t[id] }),
        Command::Cancel => t.remove(id),
        Command::SetUpdateInterval { interval_ms } => t.insert(
            id,
            JobRecord { interval_ms, ..t[id] },
        ),
    }
}

/// The table and the result after `cmd` on job `id`, given what the engine
/// answered (`outcome` is not read when the engine was not asked).
pub open spec fn spec_commit(
    t: Map<u128, JobRecord>,
    id: u128,
    cmd: Command,
    outcome: Result<(), i32>,
) -> (Map<u128, JobRecord>, Result<(), Error>) {
    match spec_check(t, id, cmd) {
        Err(e) => (t, Err(e)),
        Ok(EngineCall::Nothing) => (t, Ok(())),
        Ok(_) => match outcome {
            Err(code) => (t, Err(Error::EngineError { code })),
            Ok(()) => (spec_applied(t, id, cmd), Ok(())),
        },
    }
}

/// The table after a status report was observed: the job's last known state
/// follows the report, unless the job is unknown or already terminal.
pub open spec fn spec_observed(t: Map<u128, JobRecord>, r: StatusReport) -> Map<u128, JobRecord> {
    let id = r.spec_job().value;
    if t.contains_key(id) && !t[id].state.spec_is_terminal() {
        t.insert(id, JobRecord { state: r.spec_state(), ..t[id] })
    } else {
        t
    }
}

/// The table after a sequence of observed reports, in order.
pub open spec fn spec_observed_all(t: Map<u128, JobRecord>, rs: Seq<StatusReport>) -> Map<
    u128,
    JobRecord,
>
    decreases rs.len(),
{
    if rs.len() == 0 {
        t
    } else {
        spec_observed(spec_observed_all(t, rs.drop_last()), rs.last())
    }
}

/// The record of a job that was just started.
pub open spec fn spec_new_record(interval_ms: u32) -> JobRecord {
    JobRecord { state: JobState::Queued, foreground: false, interval_ms }
}

/// The report latched in the monitor of a job that was just started.
pub open spec fn spec_initial_report(r: StatusReport, id: JobIdentity) -> bool {
    &&& r.spec_job() == id
    &&& r.spec_state() == JobState::Queued
    &&& r.spec_bytes_transferred() == 0
    &&& r.spec_bytes_total() == None::<u64>
    &&& r.spec_error_context() == None::<crate::report::ErrorContext>
}

/// The jobs that one controller issues commands to.
pub struct JobController {
    jobs: HashMap<u128, JobRecord>,
}

impl View for JobController {
    type V = Map<u128, JobRecord>;

    closed spec fn view(&self) -> Map<u128, JobRecord> {
        self.jobs@
    }
}

impl JobController {
    pub fn new() -> (r: JobController)
        ensures
            r@ == Map::<u128, JobRecord>::empty(),
    {
        JobController { jobs: HashMap::new() }
    }

    /// The record of job `id`, if the controller knows it.
    pub fn record(&self, id: JobIdentity) -> (r: Option<JobRecord>)
        ensures
            r == (if self@.contains_key(id.value) {
                Some(self@[id.value])
            } else {
                None::<JobRecord>
            }),
    {
        match self.jobs.get(&id.value) {
            Some(rec) => Some(*rec),
            None => None,
        }
    }

    /// Registers a job that the engine has just created under `id`, and
    /// attaches its monitor in the same step, with the job's initial report
    /// latched. Fails when `id` is already known.
    pub fn start(&mut self, id: JobIdentity, interval_ms: u32, now_ms: u64) -> (r: Result<
        Monitor,
        Error,
    >)
        ensures
            old(self)@.contains_key(id.value) ==> r == Err::<Monitor, Error>(
                Error::InvalidStateForOperation,
            ) && final(self)@ == old(self)@,
            !old(self)@.contains_key(id.value) ==> r is Ok && final(self)@ == old(self)@.insert(
                id.value,
                spec_new_record(interval_ms),
            ) && exists|initial: StatusReport|
                spec_initial_report(initial, id) && r->Ok_0@ == MonitorView::attached(
                    id,
                    initial,
                    interval_ms,
                    now_ms,
                ),
    {
        if self.jobs.contains_key(&id.value) {
            return Err(Error::InvalidStateForOperation);
        }
        self.jobs.insert(id.value, JobRecord { state: JobState::Queued, foreground: false, interval_ms });
        let initial = StatusReport::new(id, JobState::Queued, 0, None, 0);
        let m = Monitor::attach(id, initial, interval_ms, now_ms);
        assert(spec_initial_report(initial, id));
        Ok(m)
    }

    /// Records the state that a report shows, as the job's last observed state.
    pub fn observe(&mut self, report: &StatusReport)
        ensures
            final(self)@ == spec_observed(old(self)@, *report),
    {
        let id = report.job().value;
        match self.jobs.get(&id) {
            Some(rec) => {
                if !rec.state.is_terminal() {
                    let updated = JobRecord { state: report.state(), ..*rec };
                    self.jobs.insert(id, updated);
                }
            },
            None => {},
        }
    }

    /// Whether `cmd` may be sent to job `id` now, and what to ask of the engine.
    pub fn check(&self, id: JobIdentity, cmd: Command) -> (r: Result<EngineCall, Error>)
        ensures
            r == spec_check(self@, id.value, cmd),
    {
        let rec = match self.jobs.get(&id.value) {
            Some(rec) => *rec,
            None => {
                return Err(Error::NotFound);
            },
        };
        if rec.state.is_terminal() {
            if rec.state == JobState::Acknowledged && cmd == Command::Complete {
                return Err(Error::InvalidStateForOperation);
            } else {
                return Err(Error::NotFound);
            }
        }
        match cmd {
            Command::SetPriority { foreground } => Ok(EngineCall::SetPriority { foreground }),
            Command::Resume => if rec.state == JobState::Suspended || rec.state.is_error() {
                Ok(EngineCall::Resume)
            } else {
                Ok(EngineCall::Nothing)
            },
            Command::Complete => if rec.state == JobState::Transferred {
                Ok(EngineCall::Complete)
            } else {
                Err(Error::InvalidStateForOperation)
            },
            Command::Cancel => Ok(EngineCall::Cancel),
            Command::SetUpdateInterval { interval_ms } => Ok(
                EngineCall::SetUpdateInterval { interval_ms },
            ),
        }
    }

    /// Settles `cmd` on job `id` once the engine has answered `outcome` to the
    /// call that `check` asked for: a failure of the engine is passed on and
    /// changes nothing; on success the command takes effect.
    pub fn commit(&mut self, id: JobIdentity, cmd: Command, outcome: Result<(), i32>) -> (r: Result<
        (),
        Error,
    >)
        ensures
            (final(self)@, r) == spec_commit(old(self)@, id.value, cmd, outcome),
    {
        let call = match self.check(id, cmd) {
            Err(e) => {
                return Err(e);
            },
            Ok(call) => call,
        };
        if call == EngineCall::Nothing {
            return Ok(());
        }
        if let Err(code) = outcome {
            return Err(Error::EngineError { code });
        }
        let rec = match self.jobs.get(&id.value) {
            Some(rec) => *rec,
            None => {
                return Err(Error::NotFound);
            },
        };
        match cmd {
            Command::SetPriority { foreground } => {
                self.jobs.insert(id.value, JobRecord { foreground, ..rec });
            },
            Command::Resume => {},
            Command::Complete => {
                self.jobs.insert(id.value, JobRecord { state: JobState::Acknowledged, ..rec });
            },
            Command::Cancel => {
                self.jobs.remove(&id.value);
            },
            Command::SetUpdateInterval { interval_ms } => {
                self.jobs.insert(id.value, JobRecord { interval_ms, ..rec });
            },
        }
        Ok(())
    }

    /// Cancels job `id` given the engine's answer `outcome`, and on success
    /// cuts `monitor` off from the job before returning, so that nothing is
    /// latched afterwards and a waiting poll fails with `NotConnected`.
    pub fn cancel(&mut self, id: JobIdentity, outcome: Result<(), i32>, monitor: &mut Monitor) -> (r:
        Result<(), Error>)
        ensures
            (final(self)@, r) == spec_commit(old(self)@, id.value, Command::Cancel, outcome),
            final(monitor)@ == (if r is Ok && old(monitor)@.job == id {
                old(monitor)@.disconnected()
            } else {
                old(monitor)@
            }),
    {
        let r = self.commit(id, Command::Cancel, outcome);
        if r.is_ok() && monitor.job() == id {
            monitor.disconnect();
        }
        r
    }
}

/// Observations never bring back a job that the table has dropped, nor change
/// the record of a job that has reached a terminal state.
pub proof fn lemma_observations_keep_settled_jobs(
    t: Map<u128, JobRecord>,
    rs: Seq<StatusReport>,
    id: u128,
)
    ensures
        !t.contains_key(id) ==> !spec_observed_all(t, rs).contains_key(id),
        t.contains_key(id) && t[id].state.spec_is_terminal() ==> spec_observed_all(
            t,
            rs,
        ).contains_key(id) && spec_observed_all(t, rs)[id] == t[id],
    decreases rs.len(),
{
    if rs.len() > 0 {
        lemma_observations_keep_settled_jobs(t, rs.drop_last(), id);
    }
}

/// `Complete` is accepted exactly when the job's last observed state is
/// `Transferred`. Once it has succeeded, completing the job again fails with
/// `InvalidStateForOperation`, whatever was observed in between and whatever
/// the engine would answer.
pub proof fn lemma_complete_succeeds_once(
    t: Map<u128, JobRecord>,
    id: u128,
    rs: Seq<StatusReport>,
    again: Result<(), i32>,
)
    ensures
        spec_check(t, id, Command::Complete) is Ok <==> (t.contains_key(id) && t[id].state
            == JobState::Transferred),
        t.contains_key(id) && t[id].state == JobState::Transferred ==> {
            let done = spec_commit(t, id, Command::Complete, Ok(()));
            &&& done.1 == Ok::<(), Error>(())
            &&& spec_commit(spec_observed_all(done.0, rs), id, Command::Complete, again).1 == Err::<
                (),
                Error,
            >(Error::InvalidStateForOperation)
        },
{
    if t.contains_key(id) && t[id].state == JobState::Transferred {
        let done = spec_commit(t, id, Command::Complete, Ok(()));
        assert(done.0.contains_key(id) && done.0[id].state == JobState::Acknowledged);
        lemma_observations_keep_settled_jobs(done.0, rs, id);
    }
}

/// Once a cancel has succeeded, every later command on the job fails with
/// `NotFound` and changes nothing, whatever was observed in between.
pub proof fn lemma_cancelled_job_is_gone(
    t: Map<u128, JobRecord>,
    id: u128,
    outcome: Result<(), i32>,
    rs: Seq<StatusReport>,
    cmd: Command,
    later: Result<(), i32>,
)
    requires
        spec_commit(t, id, Command::Cancel, outcome).1 == Ok::<(), Error>(()),
    ensures
        ({
            let after = spec_observed_all(spec_commit(t, id, Command::Cancel, outcome).0, rs);
            spec_commit(after, id, cmd, later) == (after, Err::<(), Error>(Error::NotFound))
        }),
{
    let cancelled = spec_commit(t, id, Command::Cancel, outcome).0;
    assert(!cancelled.contains_key(id));
    lemma_observations_keep_settled_jobs(cancelled, rs, id);
}

/// After a successful cancel, whatever the engine pushes and whatever is
/// observed afterwards, every poll of the job's monitor fails with
/// `NotConnected` and every command on the job fails with `NotFound`.
pub proof fn lemma_cancel_cuts_off_job(
    t: Map<u128, JobRecord>,
    v: MonitorView,
    id: JobIdentity,
    outcome: Result<(), i32>,
    rs: Seq<StatusReport>,
    cmd: Command,
    later: Result<(), i32>,
    now_ms: u64,
    started_ms: u64,
    timeout_ms: u32,
)
    requires
        v.job == id,
        spec_commit(t, id.value, Command::Cancel, outcome).1 == Ok::<(), Error>(()),
    ensures
        v.disconnected().installed_all(rs).poll(now_ms, started_ms, timeout_ms).1
            == PollStep::Failed(Error::NotConnected),
        spec_commit(
            spec_observed_all(spec_commit(t, id.value, Command::Cancel, outcome).0, rs),
            id.value,
            cmd,
            later,
        ).1 == Err::<(), Error>(Error::NotFound),
{
    lemma_disconnected_monitor_stays_cut_off(v, rs, now_ms, started_ms, timeout_ms);
    lemma_cancelled_job_is_gone(t, id.value, outcome, rs, cmd, later);
}

} // verus!
