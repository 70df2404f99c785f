//! One cleanup run: what to delete, in which batches, and what to report.

use vstd::prelude::*;
use vstd::string::StringExecFns;
use crate::batch::{RecordKey, DeleteKey, batch_plan, batch_views, plan_batches};
use crate::retention::{surplus, retained, trim};
use crate::text::{decimal, i32_of, parse_i32, push_decimal};

verus! {

/// The most keys the store takes in one batch delete call.
pub const DELETE_BATCH_LIMIT: usize = 25;

/// Counts for operational visibility: readings found, readings deleted (the
/// surplus), readings that remain.
pub struct CleanupReport {
    pub found: usize,
    pub deleted: usize,
    pub remaining: usize,
}

/// The report of a run that found `found` readings under `limit`.
pub open spec fn report_of(found: nat, limit: nat) -> CleanupReport {
    if found > limit {
        CleanupReport { found: found as usize, deleted: (found - limit) as usize, remaining: limit as usize }
    } else {
        CleanupReport { found: found as usize, deleted: 0, remaining: found as usize }
    }
}

/// The text of a report: the deletions and what remains when anything was
/// deleted, the current count otherwise.
pub open spec fn report_text(r: CleanupReport) -> Seq<char> {
    if r.deleted > 0 {
        "Cleanup complete. Deleted "@ + decimal(r.deleted as nat) + " old readings. "@ + decimal(
            r.remaining as nat,
        ) + " readings remain."@
    } else {
        "No cleanup needed. Current count: "@ + decimal(r.found as nat)
    }
}

impl CleanupReport {
    /// The report for `found` readings under a retention limit of `limit`.
    pub fn new(found: usize, limit: usize) -> (r: CleanupReport)
        ensures
            r == report_of(found as nat, limit as nat),
    {
        if found > limit {
            CleanupReport { found, deleted: found - limit, remaining: limit }
        } else {
            CleanupReport { found, deleted: 0, remaining: found }
        }
    }

    /// The report as one line of text.
    pub fn message(&self) -> (m: String)
        ensures
            m@ == report_text(*self),
    {
        if self.deleted > 0 {
            let mut m = String::from_str("Cleanup complete. Deleted ");
            push_decimal(&mut m, self.deleted);
            m.append(" old readings. ");
            push_decimal(&mut m, self.remaining);
            m.append(" readings remain.");
            m
        } else {
            let mut m = String::from_str("No cleanup needed. Current count: ");
            push_decimal(&mut m, self.found);
            m
        }
    }
}

/// Why the retention limit in the configuration cannot be used.
#[derive(Debug, PartialEq, Eq, Structural)]
pub enum ConfigError {
    /// The text is not an `i32` in decimal.
    NotANumber,
    /// The limit is below zero.
    Negative,
}

/// The retention limit that the configuration text `s` gives, if any.
pub open spec fn retention_limit_of(s: Seq<char>) -> Result<usize, ConfigError> {
    match i32_of(s) {
        Some(v) => if v >= 0 {
            Ok(v as usize)
        } else {
            Err(ConfigError::Negative)
        },
        None => Err(ConfigError::NotANumber),
    }
}

/// Reads the retention limit from configuration text.
pub fn retention_limit(text: &str) -> (r: Result<usize, ConfigError>)
    ensures
        r == retention_limit_of(text@),
{
    match parse_i32(text) {
        Some(v) => if v >= 0 {
            Ok(v as usize)
        } else {
            Err(ConfigError::Negative)
        },
        None => Err(ConfigError::NotANumber),
    }
}

/// The outcome of planning a run: the report, and the batch delete calls to
/// make, in order.
pub struct CleanupPlan<V> {
    pub report: CleanupReport,
    pub batches: Vec<Vec<DeleteKey<V>>>,
}

/// Plans a cleanup of `records`, the keys of a sensor's readings ordered most
/// recent first: the readings past the `limit` most recent are surplus, and
/// the surplus is cut into batches of at most `bound` keys, skipping records
/// whose key is incomplete.
pub fn plan_cleanup<V>(records: Vec<RecordKey<V>>, limit: usize, bound: usize) -> (p: CleanupPlan<V>)
    requires
        bound > 0,
    ensures
        p.report == report_of(records@.len(), limit as nat),
        batch_views(p.batches@) == batch_plan(surplus(records@, limit as nat), bound as nat),
{
    let found = records.len();
    let mut records = records;
    let extra = trim(&mut records, limit);
    let report = CleanupReport::new(found, limit);
    let batches = plan_batches(extra, bound);
    CleanupPlan { report, batches }
}

/// The report counts what the trim does: the surplus is what is deleted, the
/// retained readings are what remains, and the two add up to what was found.
pub proof fn law_report_counts<A>(s: Seq<A>, limit: nat)
    requires
        s.len() <= usize::MAX,
    ensures
        report_of(s.len(), limit).found == s.len(),
        report_of(s.len(), limit).deleted == surplus(s, limit).len(),
        report_of(s.len(), limit).remaining == retained(s, limit).len(),
        report_of(s.len(), limit).deleted + report_of(s.len(), limit).remaining == s.len(),
{
}

/// A second run on what the first one left makes no delete call and reports
/// that nothing was deleted.
pub proof fn law_cleanup_idempotent<V>(s: Seq<RecordKey<V>>, limit: nat, bound: nat)
    requires
        s.len() <= usize::MAX,
        bound > 0,
    ensures
        batch_plan(surplus(retained(s, limit), limit), bound) == Seq::<Seq<DeleteKey<V>>>::empty(),
        report_of(retained(s, limit).len(), limit).deleted == 0,
{
    crate::retention::law_trim_idempotent(s, limit);
    assert(batch_plan(Seq::<RecordKey<V>>::empty(), bound) =~= Seq::<Seq<DeleteKey<V>>>::empty());
}

} // verus!
