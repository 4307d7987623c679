//! Scheduled transfers: recurring send / receive jobs.

use crate::client::api::{blank, is_blank};
use crate::client::model::TransferRequest;
use crate::service::audit::Outcome;
use crate::service::http::{between, ApiError, ApiErrorV};
use crate::text::{lower, opt_text, same_ignoring_case};
use vstd::prelude::*;
use vstd::string::StringExecFns;

verus! {

/// A recurring transfer job.
#[derive(Debug, PartialEq, Eq)]
pub struct ScheduledTransfer {
    /// Identifier.
    pub id: String,
    /// Human name.
    pub name: String,
    /// Enabled.
    pub enabled: bool,
    /// `send` or `receive`.
    pub direction: String,
    /// The transfer to run.
    pub request: TransferRequest,
    /// Interval between runs, in seconds.
    pub interval_seconds: u64,
    /// Last run time (RFC 3339).
    pub last_run: Option<String>,
    /// Outcome of the last run.
    pub last_status: Option<String>,
    /// Next run (epoch milliseconds).
    pub next_run_ms: i64,
    /// Creation time.
    pub created_at: Option<String>,
    /// Update time.
    pub updated_at: Option<String>,
}

impl Default for ScheduledTransfer {
    fn default() -> (r: Self)
        ensures
            r.id@ == ""@ && r.name@ == ""@,
            r.enabled,
            r.direction@ == "send"@,
            r.request == TransferRequest::blank(),
            r.interval_seconds == 3600,
            r.last_run is None && r.last_status is None,
            r.next_run_ms == 0,
            r.created_at is None && r.updated_at is None,
    {
        ScheduledTransfer {
            id: "".to_owned(),
            name: "".to_owned(),
            enabled: true,
            direction: "send".to_owned(),
            request: TransferRequest::default(),
            interval_seconds: 3600,
            last_run: None,
            last_status: None,
            next_run_ms: 0,
            created_at: None,
            updated_at: None,
        }
    }
}

/// Whether a job that runs at `now` has a next run that a machine number can hold.
pub open spec fn plannable(now: i64, interval_seconds: u64) -> bool {
    interval_seconds * 1000 <= i64::MAX && now + interval_seconds * 1000 <= i64::MAX
}

/// Whether a job that runs at `now` has a next run that a machine number can hold.
#[must_use]
pub fn can_plan(now: i64, interval_seconds: u64) -> (r: bool)
    ensures
        r == plannable(now, interval_seconds),
{
    interval_seconds <= (i64::MAX / 1000) as u64 && (now <= 0 || (interval_seconds as i64) * 1000
        <= i64::MAX - now)
}

/// At least one second.
pub open spec fn at_least_one(seconds: u64) -> u64 {
    if seconds == 0 {
        1
    } else {
        seconds
    }
}

/// Time of the run that follows `now`, after `interval_seconds`.
#[must_use]
pub fn next_run(now: i64, interval_seconds: u64) -> (r: i64)
    requires
        plannable(now, interval_seconds),
    ensures
        r == now + interval_seconds * 1000,
{
    now + (interval_seconds as i64) * 1000
}

/// What is wrong with a job, if anything is.
pub open spec fn schedule_fault(s: ScheduledTransfer) -> Option<Seq<char>> {
    if blank(s.name@) {
        Some("name is required"@)
    } else if s.interval_seconds == 0 {
        Some("intervalSeconds must be at least 1"@)
    } else {
        None
    }
}

/// Check a job.
pub fn check(s: &ScheduledTransfer) -> (r: Result<(), ApiError>)
    ensures
        match schedule_fault(*s) {
            Some(text) => r is Err && r->Err_0@ == ApiErrorV::bad_request(text),
            None => r is Ok,
        },
{
    if is_blank(s.name.as_str()) {
        return Err(ApiError::bad_request("name is required".to_owned()));
    }
    if s.interval_seconds == 0 {
        return Err(ApiError::bad_request("intervalSeconds must be at least 1".to_owned()));
    }
    Ok(())
}

/// Create a job: its first run comes after one interval.
pub fn create(s: ScheduledTransfer, id: String, now_ms: i64, now: &str) -> (r: Result<
    ScheduledTransfer,
    ApiError,
>)
    requires
        schedule_fault(s) is None ==> plannable(now_ms, s.interval_seconds),
    ensures
        match schedule_fault(s) {
            Some(text) => r is Err && r->Err_0@ == ApiErrorV::bad_request(text),
            None => {
                &&& r is Ok
                &&& r->Ok_0 == (ScheduledTransfer {
                    id,
                    created_at: r->Ok_0.created_at,
                    updated_at: r->Ok_0.updated_at,
                    next_run_ms: (now_ms + s.interval_seconds * 1000) as i64,
                    ..s
                })
                &&& opt_text(r->Ok_0.created_at) == Some(now@)
                &&& opt_text(r->Ok_0.updated_at) == Some(now@)
            },
        },
{
    match check(&s) {
        Ok(()) => {},
        Err(e) => {
            return Err(e);
        },
    }
    let mut s = s;
    s.id = id;
    s.created_at = Some(now.to_owned());
    s.updated_at = Some(now.to_owned());
    s.next_run_ms = next_run(now_ms, s.interval_seconds);
    Ok(s)
}

/// Update a job: it keeps its identifier, its creation time and its history. One without a next
/// run is planned after one interval.
#[must_use]
pub fn update(existing: ScheduledTransfer, s: ScheduledTransfer, now_ms: i64, now: String) -> (r:
    ScheduledTransfer)
    requires
        s.next_run_ms == 0 ==> plannable(now_ms, at_least_one(s.interval_seconds)),
    ensures
        r == (ScheduledTransfer {
            id: existing.id,
            created_at: existing.created_at,
            last_run: existing.last_run,
            last_status: existing.last_status,
            updated_at: Some(now),
            next_run_ms: if s.next_run_ms == 0 {
                (now_ms + at_least_one(s.interval_seconds) * 1000) as i64
            } else {
                s.next_run_ms
            },
            ..s
        }),
{
    let mut s = s;
    s.id = existing.id;
    s.created_at = existing.created_at;
    s.last_run = existing.last_run;
    s.last_status = existing.last_status;
    s.updated_at = Some(now);
    if s.next_run_ms == 0 {
        let interval: u64 = if s.interval_seconds == 0 {
            1
        } else {
            s.interval_seconds
        };
        s.next_run_ms = next_run(now_ms, interval);
    }
    s
}

impl ScheduledTransfer {
    /// Whether the job is to run.
    pub open spec fn spec_due(self, now: i64) -> bool {
        self.enabled && self.next_run_ms <= now
    }

    /// Whether the job is to run.
    #[must_use]
    pub fn due(&self, now: i64) -> (r: bool)
        ensures
            r == self.spec_due(now),
    {
        self.enabled && self.next_run_ms <= now
    }

    /// Whether the job receives a file; it sends one otherwise.
    #[must_use]
    pub fn receives(&self) -> (r: bool)
        ensures
            r == (lower(self.direction@) == lower("receive"@)),
    {
        same_ignoring_case(self.direction.as_str(), "receive")
    }

    /// Record a run that was asked for by hand: the plan stays as it is.
    pub fn ran(&mut self, outcome: String, now: String)
        ensures
            *final(self) == (ScheduledTransfer {
                last_run: Some(now),
                last_status: Some(outcome),
                ..*old(self)
            }),
    {
        self.last_run = Some(now);
        self.last_status = Some(outcome);
    }

    /// Record a planned run: the next one comes after one interval.
    pub fn fired(&mut self, outcome: String, now_ms: i64, now: &str)
        requires
            plannable(now_ms, at_least_one(old(self).interval_seconds)),
        ensures
            *final(self) == (ScheduledTransfer {
                last_run: final(self).last_run,
                last_status: Some(outcome),
                next_run_ms: (now_ms + at_least_one(old(self).interval_seconds) * 1000) as i64,
                updated_at: final(self).updated_at,
                ..*old(self)
            }),
            opt_text(final(self).last_run) == Some(now@),
            opt_text(final(self).updated_at) == Some(now@),
    {
        let interval: u64 = if self.interval_seconds == 0 {
            1
        } else {
            self.interval_seconds
        };
        self.last_run = Some(now.to_owned());
        self.last_status = Some(outcome);
        self.next_run_ms = next_run(now_ms, interval);
        self.updated_at = Some(now.to_owned());
    }
}

/// Outcome of a run: the transfer that was queued, or why none was.
#[must_use]
pub fn outcome_text(queued: Result<&str, &str>) -> (r: String)
    ensures
        r@ == (match queued {
            Ok(id) => "queued "@ + id@,
            Err(e) => "error: "@ + e@,
        }),
{
    let (head, tail) = match queued {
        Ok(id) => ("queued ", id),
        Err(e) => ("error: ", e),
    };
    let mut out = head.to_owned();
    out.append(tail);
    out
}

/// Outcome of a run, for the audit log.
#[must_use]
pub fn audited(queued: bool) -> (r: Outcome)
    ensures
        r == (if queued {
            Outcome::Success
        } else {
            Outcome::Failure
        }),
{
    if queued {
        Outcome::Success
    } else {
        Outcome::Failure
    }
}

/// Error of a job that is not known.
#[must_use]
pub fn unknown_schedule(id: &str) -> (r: ApiError)
    ensures
        r@ == ApiErrorV::not_found("schedule '"@ + id@ + "' not found"@),
{
    ApiError::not_found(between("schedule '", id, "' not found"))
}

// ---- laws ----

/// A job that has just run is not due again before its interval has passed, and is due from then
/// on.
pub proof fn law_jobs_run_once_per_interval(s: ScheduledTransfer, ran_at: i64, later: i64)
    requires
        s.enabled,
        plannable(ran_at, at_least_one(s.interval_seconds)),
        s.next_run_ms == ran_at + at_least_one(s.interval_seconds) * 1000,
    ensures
        s.spec_due(later) <==> later - ran_at >= at_least_one(s.interval_seconds) * 1000,
        !s.spec_due(ran_at),
{
}

/// A job that is not enabled never runs.
pub proof fn law_disabled_jobs_never_run(s: ScheduledTransfer, now: i64)
    requires
        !s.enabled,
    ensures
        !s.spec_due(now),
{
}

} // verus!
