//! The deletion gate and the cutoff-date parser.
//!
//! Every removal of every filter goes through [`attempt_delete`]: the
//! single choke point that enforces the ignore-list and the dry-run mode.
//! Performing the removal on a `Deleted` outcome falls to the caller,
//! outside this crate.

use vstd::prelude::*;

use crate::ignore::{spec_is_ignored, IgnoreSet};
use crate::CleanError;

verus! {

/// What [`attempt_delete`] answers for one candidate file.
#[derive(Clone, Copy, Debug, PartialEq, Eq, Structural)]
pub enum GateOutcome {
    /// The file is to be removed.
    Deleted,
    /// The ignore-list shields the file; nothing is removed, dry run or not.
    SkippedIgnored,
    /// A dry run: the file would have been removed, but nothing is.
    SkippedDryRun,
}

/// Ignore entries are consulted first and win over everything; then the
/// dry-run flag; only then is removal allowed.
pub open spec fn spec_attempt_delete(
    entries: Seq<Seq<char>>,
    path: Seq<char>,
    dry_run: bool,
) -> GateOutcome {
    if spec_is_ignored(entries, path) {
        GateOutcome::SkippedIgnored
    } else if dry_run {
        GateOutcome::SkippedDryRun
    } else {
        GateOutcome::Deleted
    }
}

/// Decide whether `path` may be removed.  Returns `Deleted` exactly when the
/// ignore-list does not shield `path` and this is not a dry run.
pub fn attempt_delete(path: &str, dry_run: bool, ignore: &IgnoreSet) -> (r: GateOutcome)
    ensures
        r == spec_attempt_delete(ignore@, path@, dry_run),
{
    if ignore.is_ignored(path) {
        GateOutcome::SkippedIgnored
    } else if dry_run {
        GateOutcome::SkippedDryRun
    } else {
        GateOutcome::Deleted
    }
}

/// What parsing a cutoff-date string yields: the UTC-midnight instant of the
/// calendar date, in seconds since the Unix epoch, or nothing when the string
/// is not a valid `YYYY-MM-DD` date.  The result depends on the string alone.
pub uninterp spec fn cutoff_instant(s: Seq<char>) -> Option<i64>;

/// Relies on `chrono::NaiveDate::parse_from_str` with the `%Y-%m-%d` format
/// (a calendar date, rejecting anything malformed or out of range), on
/// `chrono::NaiveDate::and_hms_opt(0, 0, 0)` (midnight of that date) and on
/// `chrono::NaiveDateTime::and_utc().timestamp()` (that instant read as UTC,
/// in seconds since the Unix epoch).
#[verifier::external_body]
fn parse_cutoff_instant(date_str: &str) -> (r: Option<i64>)
    ensures
        r == cutoff_instant(date_str@),
{
    match chrono::NaiveDate::parse_from_str(date_str, "%Y-%m-%d") {
        Ok(date) => match date.and_hms_opt(0, 0, 0) {
            Some(midnight) => Some(midnight.and_utc().timestamp()),
            None => None,
        },
        Err(_) => None,
    }
}

/// Parse a cutoff-date string into a comparable instant.  Succeeds exactly
/// on valid `YYYY-MM-DD` strings; anything else is the fatal
/// [`CleanError::InvalidCutoffDate`].
pub fn parse_cutoff_date(date_str: &str) -> (r: Result<i64, CleanError>)
    ensures
        match r {
            Ok(t) => cutoff_instant(date_str@) == Some(t),
            Err(e) => cutoff_instant(date_str@) is None && e == CleanError::InvalidCutoffDate,
        },
{
    match parse_cutoff_instant(date_str) {
        Some(t) => Ok(t),
        None => Err(CleanError::InvalidCutoffDate),
    }
}

} // verus!
