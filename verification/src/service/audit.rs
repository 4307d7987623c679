//! The audit log: its records, and how many of them are kept.

use crate::service::select::{count, passing, select, selected, Criterion};
use crate::text::{lower, opt_str, same_ignoring_case};
use vstd::prelude::*;

verus! {

/// Outcome of an audited action.
#[derive(Debug, Clone, Copy, PartialEq, Eq, Structural)]
pub enum Outcome {
    /// The action succeeded.
    Success,
    /// The action failed.
    Failure,
}

/// One audit record.
#[derive(Debug, PartialEq, Eq)]
pub struct AuditEvent {
    /// Unique identifier.
    pub id: String,
    /// Time (RFC 3339).
    pub timestamp: String,
    /// Category (`config`, `listener`, `certificate`, `vault`, `transfer`, `session`).
    pub category: String,
    /// Action (`create`, `update`, `delete`, `start`, `stop`, `issue`, ...).
    pub action: String,
    /// Object acted upon.
    pub target: Option<String>,
    /// Who / what triggered it (partner, remote address, `api`).
    pub actor: Option<String>,
    /// Free-text detail.
    pub detail: Option<String>,
    /// Outcome.
    pub outcome: Outcome,
}

impl AuditEvent {
    /// A successful action.
    #[must_use]
    pub fn success(
        id: String,
        timestamp: String,
        category: &str,
        action: &str,
        target: String,
    ) -> (r: Self)
        ensures
            r.id == id,
            r.timestamp == timestamp,
            r.category@ == category@,
            r.action@ == action@,
            r.target == Some(target),
            r.actor is None,
            r.detail is None,
            r.outcome == Outcome::Success,
    {
        AuditEvent {
            id,
            timestamp,
            category: category.to_owned(),
            action: action.to_owned(),
            target: Some(target),
            actor: None,
            detail: None,
            outcome: Outcome::Success,
        }
    }

    /// A failed action, with a reason.
    #[must_use]
    pub fn failure(
        id: String,
        timestamp: String,
        category: &str,
        action: &str,
        target: String,
        reason: String,
    ) -> (r: Self)
        ensures
            r.id == id,
            r.timestamp == timestamp,
            r.category@ == category@,
            r.action@ == action@,
            r.target == Some(target),
            r.actor is None,
            r.detail == Some(reason),
            r.outcome == Outcome::Failure,
    {
        AuditEvent {
            id,
            timestamp,
            category: category.to_owned(),
            action: action.to_owned(),
            target: Some(target),
            actor: None,
            detail: Some(reason),
            outcome: Outcome::Failure,
        }
    }
}

/// Default cap on retained audit events (0 disables retention).
pub const DEFAULT_MAX_ENTRIES: usize = 50_000;

/// Prune at most once every this many writes, to amortise the cost.
pub const PRUNE_INTERVAL: u64 = 256;

/// Events that are looked at where the log is filtered.
pub const FILTER_DEPTH: usize = 5000;

/// When the log is cut down to its newest events.
#[derive(Debug, Clone, Copy, PartialEq, Eq, Structural)]
pub struct Retention {
    /// Events kept, 0 for no limit.
    pub max_entries: usize,
    /// Events written.
    pub writes: u64,
}

impl Retention {
    /// Keep at most `max_entries` events (0 = unlimited).
    #[must_use]
    pub fn new(max_entries: usize) -> (r: Self)
        ensures
            r == (Retention { max_entries, writes: 0 }),
    {
        Retention { max_entries, writes: 0 }
    }

    /// Note that an event was written; tells whether the log is to be pruned now: at the first
    /// write, and at every [`PRUNE_INTERVAL`]th one behind it.
    pub fn on_write(&mut self) -> (r: bool)
        ensures
            final(self).max_entries == old(self).max_entries,
            r == (old(self).max_entries > 0 && old(self).writes % PRUNE_INTERVAL == 0),
            old(self).max_entries == 0 ==> final(self).writes == old(self).writes,
            old(self).max_entries > 0 ==> final(self).writes == (if old(self).writes < u64::MAX {
                old(self).writes + 1
            } else {
                0
            }),
    {
        if self.max_entries == 0 {
            return false;
        }
        let due = self.writes % PRUNE_INTERVAL == 0;
        self.writes = self.writes.wrapping_add(1);
        due
    }
}

/// Events of a category, or all.
#[derive(Debug)]
pub struct OfCategory<'a> {
    /// The category.
    pub category: Option<&'a str>,
}

impl<'a> Criterion<AuditEvent> for OfCategory<'a> {
    open spec fn passes(&self, e: AuditEvent) -> bool {
        match opt_str(self.category) {
            Some(c) => lower(e.category@) == lower(c),
            None => true,
        }
    }

    fn test(&self, e: &AuditEvent) -> (r: bool) {
        match self.category {
            Some(c) => same_ignoring_case(e.category.as_str(), c),
            None => true,
        }
    }
}

/// Events that failed.
#[derive(Debug)]
pub struct Failures {}

impl Criterion<AuditEvent> for Failures {
    open spec fn passes(&self, e: AuditEvent) -> bool {
        e.outcome == Outcome::Failure
    }

    fn test(&self, e: &AuditEvent) -> (r: bool) {
        e.outcome == Outcome::Failure
    }
}

/// The first events of an optional category, at most `limit`, of a list with the newest first.
#[must_use]
pub fn filtered(all: Vec<AuditEvent>, category: Option<&str>, limit: usize) -> (r: Vec<AuditEvent>)
    ensures
        r@ == selected(OfCategory { category }, all@, limit as nat),
{
    let c = OfCategory { category };
    select(&c, all, limit)
}

/// Count by outcome: all events, those that succeeded, those that failed.
#[must_use]
pub fn stats(all: &Vec<AuditEvent>) -> (r: (usize, usize, usize))
    ensures
        r.0 == all.len(),
        r.2 == passing(Failures {  }, all@).len(),
        r.1 + r.2 == r.0,
{
    let c = Failures {  };
    let failures: usize = count(&c, all);
    (all.len(), all.len() - failures, failures)
}

/// The log never outgrows its cap by more than a prune interval: among that many writes in a row
/// there is always one that prunes.
pub proof fn law_log_is_pruned_in_time(writes: u64)
    requires
        writes <= u64::MAX - PRUNE_INTERVAL,
    ensures
        exists|k: u64| 0 <= k < PRUNE_INTERVAL && #[trigger] ((writes + k) % PRUNE_INTERVAL as int) == 0,
{
    let r = writes % PRUNE_INTERVAL;
    let k: u64 = if r == 0 {
        0
    } else {
        (PRUNE_INTERVAL - r) as u64
    };
    assert((writes + k) % PRUNE_INTERVAL as int == 0) by (nonlinear_arith)
        requires
            r == writes % PRUNE_INTERVAL,
            k == (if r == 0 {
                0int
            } else {
                PRUNE_INTERVAL - r
            }),
            PRUNE_INTERVAL == 256,
    ;
}

} // verus!
