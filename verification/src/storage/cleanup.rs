//! Retention rules: which stored data has expired.

use vstd::prelude::*;

verus! {

/// Seconds in a day.
pub const SECONDS_PER_DAY: u64 = 86_400;

/// Days that metadata rows are kept.
pub const METADATA_RETENTION_DAYS: u64 = 30;

/// The moment (Unix seconds) before which data kept `retention_days` days
/// has expired, at time `now_secs`.
pub open spec fn retention_cutoff(now_secs: int, retention_days: int) -> int {
    now_secs - retention_days * 86_400
}

/// The cutoff, in Unix seconds, for data kept `retention_days` days.
pub fn retention_cutoff_secs(now_secs: u64, retention_days: u32) -> (cutoff: u64)
    requires
        now_secs >= retention_days * 86_400,
    ensures
        cutoff == retention_cutoff(now_secs as int, retention_days as int),
{
    now_secs - (retention_days as u64) * SECONDS_PER_DAY
}

/// Whether a file last modified at `modified_secs` has expired.
pub fn is_expired(modified_secs: u64, cutoff_secs: u64) -> (b: bool)
    ensures
        b == (modified_secs < cutoff_secs),
{
    modified_secs < cutoff_secs
}

/// The timestamp (Unix ms) before which metadata rows have expired at
/// `now_secs`: thirty days back.
pub fn metadata_cutoff_ms(now_secs: u64) -> (cutoff: i64)
    requires
        now_secs <= 9_223_372_036_854_775,
    ensures
        cutoff == retention_cutoff(now_secs as int, METADATA_RETENTION_DAYS as int) * 1000,
{
    ((now_secs as i64) - (METADATA_RETENTION_DAYS * SECONDS_PER_DAY) as i64) * 1000
}

/// Retention: a file is removed exactly when it was last modified more than
/// the retention period before now.
pub proof fn lemma_expired_iff_older_than_retention(
    modified_secs: u64,
    now_secs: u64,
    retention_days: u32,
)
    requires
        now_secs >= retention_days * 86_400,
    ensures
        (modified_secs < retention_cutoff(now_secs as int, retention_days as int)) == (
        modified_secs + retention_days * 86_400 < now_secs),
{
}

} // verus!
