//! Cron-driven scan scheduling: when the next scan runs.
use vstd::prelude::*;
use crate::config::System;

verus! {

/// `cron::Schedule::from_str` accepts the expression.
pub uninterp spec fn cron_parses(expr: Seq<char>) -> bool;

/// The first occurrence of the schedule strictly after `after` (seconds
/// since the Unix epoch, UTC), if there is one.
pub uninterp spec fn cron_next(expr: Seq<char>, after: int) -> Option<int>;

/// The last instant the scheduler computes from: the end of year 9999, UTC,
/// well inside the range of `chrono`'s date arithmetic.
pub const MAX_INSTANT: i64 = 253_402_300_799;

/// `cron::Schedule`, carried opaquely inside [`CronSchedule`].
#[verifier::external_type_specification]
#[verifier::external_body]
pub struct ExSchedule(cron::Schedule);

/// The cron expression cannot be read; the service must not start.
#[derive(PartialEq, Eq, Structural, Clone, Copy, Debug)]
pub enum SchedulingError {
    InvalidSchedule,
}

/// A parsed cron schedule together with its expression.
pub struct CronSchedule {
    source: String,
    schedule: cron::Schedule,
}

impl View for CronSchedule {
    type V = Seq<char>;

    closed spec fn view(&self) -> Seq<char> {
        self.source@
    }
}

impl CronSchedule {
    /// Relies on `cron::Schedule::from_str`.
    #[verifier::external_body]
    pub(crate) fn parse(expr: &str) -> (r: Result<CronSchedule, SchedulingError>)
        ensures
            r is Ok <==> cron_parses(expr@),
            r matches Ok(s) ==> s@ == expr@,
            r matches Err(e) ==> e == SchedulingError::InvalidSchedule,
    {
        <cron::Schedule as std::str::FromStr>::from_str(expr)
            .map(|schedule| CronSchedule { source: expr.to_string(), schedule })
            .map_err(|_| SchedulingError::InvalidSchedule)
    }

    /// Relies on `cron::Schedule::after(..).next()`: the next occurrence,
    /// which lies strictly after the given instant. Reads no state and
    /// changes none.
    #[verifier::external_body]
    pub(crate) fn next_after(&self, after: i64) -> (r: Option<i64>)
        requires
            after <= MAX_INSTANT,
        ensures
            r matches Some(t) ==> cron_next(self@, after as int) == Some(t as int),
            r is None ==> cron_next(self@, after as int) is None,
            r matches Some(t) ==> t > after,
    {
        chrono::DateTime::from_timestamp(after, 0)
            .and_then(|d| self.schedule.after(&d).next())
            .map(|d| d.timestamp())
    }
}

/// What the scheduler loop does next.
#[derive(PartialEq, Eq, Structural, Clone, Copy, Debug)]
pub enum SchedulerAction {
    /// Scan now, without waiting.
    ScanNow,
    /// Sleep until this instant, then scan.
    ScanAt(i64),
    /// No occurrence is left: stay idle.
    Idle,
}

/// The scheduler's own state: whether the startup scan is still owed.
pub struct Scheduler {
    pub schedule: CronSchedule,
    pub startup_scan_pending: bool,
}

impl Scheduler {
    /// A scheduler for the system settings; the startup scan is owed when the
    /// settings ask for it.
    pub fn new(system: &System) -> (r: Result<Scheduler, SchedulingError>)
        ensures
            r is Ok <==> cron_parses(system.schedule@),
            r matches Ok(s) ==> s.schedule@ == system.schedule@ && s.startup_scan_pending == system.run_at_startup,
            r matches Err(e) ==> e == SchedulingError::InvalidSchedule,
    {
        let schedule = CronSchedule::parse(system.schedule.as_str())?;
        Ok(Scheduler { schedule, startup_scan_pending: system.run_at_startup })
    }

    /// The next action at instant `now`: the owed startup scan first, then
    /// each occurrence of the schedule after `now`, or idling when none is
    /// left.
    pub fn next_action(&mut self, now: i64) -> (r: SchedulerAction)
        requires
            now <= MAX_INSTANT,
        ensures
            final(self).schedule@ == old(self).schedule@,
            !final(self).startup_scan_pending,
            old(self).startup_scan_pending ==> r == SchedulerAction::ScanNow,
            !old(self).startup_scan_pending ==> r == match cron_next(old(self).schedule@, now as int) {
                Some(t) => SchedulerAction::ScanAt(t as i64),
                None => SchedulerAction::Idle,
            },
            r matches SchedulerAction::ScanAt(t) ==> t > now,
    {
        if self.startup_scan_pending {
            self.startup_scan_pending = false;
            return SchedulerAction::ScanNow;
        }
        match self.schedule.next_after(now) {
            Some(t) => SchedulerAction::ScanAt(t),
            None => SchedulerAction::Idle,
        }
    }
}

impl Scheduler {
    /// The next occurrence after `now`, for display; the state is not
    /// touched, so an owed startup scan stays owed.
    pub fn upcoming(&self, now: i64) -> (r: Option<i64>)
        requires
            now <= MAX_INSTANT,
        ensures
            r matches Some(t) ==> cron_next(self.schedule@, now as int) == Some(t as int) && t > now,
            r is None ==> cron_next(self.schedule@, now as int) is None,
    {
        self.schedule.next_after(now)
    }
}

pub open spec fn no_schedule_text() -> Seq<char> {
    seq!['N', 'o', ' ', 'u', 'p', 'c', 'o', 'm', 'i', 'n', 'g', ' ', 's', 'c', 'h', 'e', 'd', 'u', 'l', 'e']
}

/// The text shown for the next scan: the formatted instant, or a notice
/// that none is scheduled.
pub fn next_schedule_text(formatted: Option<String>) -> (r: String)
    ensures
        formatted matches Some(s) ==> r == s,
        formatted is None ==> r@ == no_schedule_text(),
{
    match formatted {
        Some(s) => s,
        None => {
            let r = String::from_str("No upcoming schedule");
            proof {
                reveal_strlit("No upcoming schedule");
                assert(r@ =~= no_schedule_text());
            }
            r
        },
    }
}

} // verus!
