use vstd::prelude::*;

use crate::error::Error;
use crate::identity::JobIdentity;
use crate::report::StatusReport;

verus! {

/// The model of a monitor: the job it watches, its single pending slot, and
/// the cadence at which it re-reads the job's status when nothing is pushed.
pub struct MonitorView {
    pub job: JobIdentity,
    /// The latest unread report; a newer one replaces it.
    pub latest: Option<StatusReport>,
    /// False once the monitor has been cut off from the job.
    pub connected: bool,
    pub interval_ms: u32,
    /// When a report was last handed out, in the caller's milliseconds.
    pub last_report_ms: u64,
}

/// What a waiting `get_status` does next.
#[derive(Clone, Copy, Debug, PartialEq, Eq, Structural)]
pub enum PollStep {
    /// Return this report; it has been consumed.
    Ready(StatusReport),
    /// The update interval has elapsed: read the job's current status from
    /// the engine and return it.
    Refresh,
    /// Fail the call with this error.
    Failed(Error),
    /// Wait for a notification at most this many milliseconds, then step again.
    Wait(u64),
}

/// Milliseconds from `from` to `to`, or zero when `to` is earlier.
pub open spec fn elapsed(from: u64, to: u64) -> u64 {
    if to >= from {
        (to - from) as u64
    } else {
        0
    }
}

impl MonitorView {
    /// A monitor just attached to `job`, with `initial` already latched.
    pub open spec fn attached(
        job: JobIdentity,
        initial: StatusReport,
        interval_ms: u32,
        now_ms: u64,
    ) -> MonitorView {
        MonitorView { job, latest: Some(initial), connected: true, interval_ms, last_report_ms: now_ms }
    }

    /// The slot after a pushed report: latched if it belongs to this job and
    /// the monitor is still connected, dropped otherwise.
    pub open spec fn installed(self, r: StatusReport) -> MonitorView {
        if self.connected && r.spec_job() == self.job {
            MonitorView { latest: Some(r), ..self }
        } else {
            self
        }
    }

    /// The slot after a sequence of pushed reports, in order.
    pub open spec fn installed_all(self, rs: Seq<StatusReport>) -> MonitorView
        decreases rs.len(),
    {
        if rs.len() == 0 {
            self
        } else {
            self.installed_all(rs.drop_last()).installed(rs.last())
        }
    }

    pub open spec fn disconnected(self) -> MonitorView {
        MonitorView { latest: None, connected: false, ..self }
    }

    /// One step of a `get_status` that began at `started_ms` with a bound of
    /// `timeout_ms`, taken at `now_ms`.
    pub open spec fn poll(self, now_ms: u64, started_ms: u64, timeout_ms: u32) -> (
        MonitorView,
        PollStep,
    ) {
        let since_report = elapsed(self.last_report_ms, now_ms);
        let waited = elapsed(started_ms, now_ms);
        if !self.connected {
            (self, PollStep::Failed(Error::NotConnected))
        } else if self.latest.is_some() {
            (
                MonitorView { latest: None, last_report_ms: now_ms, ..self },
                PollStep::Ready(self.latest.unwrap()),
            )
        } else if since_report >= self.interval_ms {
            (MonitorView { last_report_ms: now_ms, ..self }, PollStep::Refresh)
        } else if waited >= timeout_ms {
            (self, PollStep::Failed(Error::Timeout))
        } else {
            let to_refresh = (self.interval_ms - since_report) as u64;
            let to_deadline = (timeout_ms - waited) as u64;
            (self, PollStep::Wait(if to_refresh < to_deadline { to_refresh } else { to_deadline }))
        }
    }
}

/// The receiving end of one job's notifications.
pub struct Monitor {
    job: JobIdentity,
    latest: Option<StatusReport>,
    connected: bool,
    interval_ms: u32,
    last_report_ms: u64,
}

impl View for Monitor {
    type V = MonitorView;

    closed spec fn view(&self) -> MonitorView {
        MonitorView {
            job: self.job,
            latest: self.latest,
            connected: self.connected,
            interval_ms: self.interval_ms,
            last_report_ms: self.last_report_ms,
        }
    }
}

impl Monitor {
    /// Attaches a monitor to `job` with `initial` already latched, so that the
    /// first poll returns at once and nothing pushed afterwards is missed.
    pub fn attach(job: JobIdentity, initial: StatusReport, interval_ms: u32, now_ms: u64) -> (r:
        Monitor)
        requires
            initial.spec_job() == job,
        ensures
            r@ == MonitorView::attached(job, initial, interval_ms, now_ms),
    {
        Monitor { job, latest: Some(initial), connected: true, interval_ms, last_report_ms: now_ms }
    }

    pub fn job(&self) -> (r: JobIdentity)
        ensures
            r == self@.job,
    {
        self.job
    }

    pub fn is_connected(&self) -> (r: bool)
        ensures
            r == self@.connected,
    {
        self.connected
    }

    pub fn interval_ms(&self) -> (r: u32)
        ensures
            r == self@.interval_ms,
    {
        self.interval_ms
    }

    pub fn has_pending(&self) -> (r: bool)
        ensures
            r == self@.latest.is_some(),
    {
        self.latest.is_some()
    }

    /// Latches a pushed report in place of any unread one. Returns whether it
    /// was latched, in which case one waiting consumer should be woken.
    pub fn notify(&mut self, report: StatusReport) -> (latched: bool)
        ensures
            final(self)@ == old(self)@.installed(report),
            latched == (old(self)@.connected && report.spec_job() == old(self)@.job),
    {
        if self.connected && report.job() == self.job {
            self.latest = Some(report);
            true
        } else {
            false
        }
    }

    /// Cuts the monitor off from its job: the pending report is dropped, later
    /// pushes are ignored, and every poll fails with `NotConnected`.
    pub fn disconnect(&mut self)
        ensures
            final(self)@ == old(self)@.disconnected(),
    {
        self.latest = None;
        self.connected = false;
    }

    /// Changes the update interval. A waiting poll that is woken afterwards
    /// measures the new interval from the last report it handed out.
    pub fn set_interval(&mut self, interval_ms: u32)
        ensures
            final(self)@ == (MonitorView { interval_ms, ..old(self)@ }),
    {
        self.interval_ms = interval_ms;
    }

    /// Decides the next step of a `get_status` call that began at `started_ms`
    /// with the bound `timeout_ms`, at the time `now_ms`.
    pub fn poll(&mut self, now_ms: u64, started_ms: u64, timeout_ms: u32) -> (step: PollStep)
        ensures
            (final(self)@, step) == old(self)@.poll(now_ms, started_ms, timeout_ms),
    {
        let since_report: u64 = if now_ms >= self.last_report_ms {
            now_ms - self.last_report_ms
        } else {
            0
        };
        let waited: u64 = if now_ms >= started_ms {
            now_ms - started_ms
        } else {
            0
        };
        if !self.connected {
            PollStep::Failed(Error::NotConnected)
        } else if self.latest.is_some() {
            let r = self.latest.unwrap();
            self.latest = None;
            self.last_report_ms = now_ms;
            PollStep::Ready(r)
        } else if since_report >= self.interval_ms as u64 {
            self.last_report_ms = now_ms;
            PollStep::Refresh
        } else if waited >= timeout_ms as u64 {
            PollStep::Failed(Error::Timeout)
        } else {
            let to_refresh: u64 = self.interval_ms as u64 - since_report;
            let to_deadline: u64 = timeout_ms as u64 - waited;
            PollStep::Wait(if to_refresh < to_deadline { to_refresh } else { to_deadline })
        }
    }
}

/// A poll on a connected monitor with a latched report hands that report out
/// at once and consumes it, whatever the bound, zero included.
pub proof fn lemma_latched_report_returns_at_once(
    v: MonitorView,
    now_ms: u64,
    started_ms: u64,
    timeout_ms: u32,
)
    requires
        v.connected,
        v.latest.is_some(),
    ensures
        v.poll(now_ms, started_ms, timeout_ms).1 == PollStep::Ready(v.latest.unwrap()),
        v.poll(now_ms, started_ms, timeout_ms).0.latest.is_none(),
{
}

/// A poll never waits past its bound: each wait ends by the deadline, and once
/// the bound has elapsed the poll returns or fails instead of waiting.
pub proof fn lemma_poll_never_waits_past_bound(
    v: MonitorView,
    now_ms: u64,
    started_ms: u64,
    timeout_ms: u32,
)
    requires
        started_ms <= now_ms,
    ensures
        match v.poll(now_ms, started_ms, timeout_ms).1 {
            PollStep::Wait(ms) => 0 < ms && now_ms - started_ms + ms <= timeout_ms,
            _ => true,
        },
        now_ms - started_ms >= timeout_ms ==> !(v.poll(now_ms, started_ms, timeout_ms).1 is Wait),
{
}

/// Pushes to a monitor that is no longer connected change nothing.
pub proof fn lemma_installs_ignored_when_cut_off(v: MonitorView, rs: Seq<StatusReport>)
    requires
        !v.connected,
    ensures
        v.installed_all(rs) == v,
    decreases rs.len(),
{
    if rs.len() > 0 {
        lemma_installs_ignored_when_cut_off(v, rs.drop_last());
    }
}

/// Once a monitor is disconnected, whatever is pushed afterwards, every poll
/// fails with `NotConnected` and nothing is latched.
pub proof fn lemma_disconnected_monitor_stays_cut_off(
    v: MonitorView,
    rs: Seq<StatusReport>,
    now_ms: u64,
    started_ms: u64,
    timeout_ms: u32,
)
    ensures
        v.disconnected().installed_all(rs).latest.is_none(),
        v.disconnected().installed_all(rs).poll(now_ms, started_ms, timeout_ms).1
            == PollStep::Failed(Error::NotConnected),
{
    lemma_installs_ignored_when_cut_off(v.disconnected(), rs);
}

/// Pushes of this job's reports to a connected monitor keep it connected and
/// leave the last of them latched.
pub proof fn lemma_last_install_is_latched(v: MonitorView, rs: Seq<StatusReport>)
    requires
        v.connected,
        forall|i: int| 0 <= i < rs.len() ==> (#[trigger] rs[i]).spec_job() == v.job,
    ensures
        v.installed_all(rs).connected,
        v.installed_all(rs).job == v.job,
        rs.len() > 0 ==> v.installed_all(rs).latest == Some(rs.last()),
        rs.len() == 0 ==> v.installed_all(rs) == v,
    decreases rs.len(),
{
    if rs.len() > 0 {
        let front = rs.drop_last();
        assert forall|i: int| 0 <= i < front.len() implies (#[trigger] front[i]).spec_job()
            == v.job by {
            assert(front[i] == rs[i]);
        }
        lemma_last_install_is_latched(v, front);
        assert(rs[rs.len() - 1].spec_job() == v.job);
    }
}

/// No notification is lost between attaching a monitor and its first poll:
/// whatever the job pushed since, that poll returns the latest of it (or the
/// initial report when nothing was pushed), at once.
pub proof fn lemma_first_poll_sees_latest_notification(
    job: JobIdentity,
    initial: StatusReport,
    interval_ms: u32,
    attached_ms: u64,
    rs: Seq<StatusReport>,
    now_ms: u64,
    started_ms: u64,
    timeout_ms: u32,
)
    requires
        initial.spec_job() == job,
        forall|i: int| 0 <= i < rs.len() ==> (#[trigger] rs[i]).spec_job() == job,
    ensures
        MonitorView::attached(job, initial, interval_ms, attached_ms).installed_all(rs).poll(
            now_ms,
            started_ms,
            timeout_ms,
        ).1 == PollStep::Ready(if rs.len() == 0 { initial } else { rs.last() }),
{
    lemma_last_install_is_latched(MonitorView::attached(job, initial, interval_ms, attached_ms), rs);
}

} // verus!
