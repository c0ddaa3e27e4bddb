//! The age filter: deletes every regular file whose last-modified instant
//! lies strictly before a cutoff calendar date, read as UTC midnight.  A
//! file whose modification time could not be read is silently retained.

use vstd::prelude::*;

use crate::ignore::{spec_ignored_by_name, spec_is_ignored};
use crate::pass::{lemma_pass_ignored_name_never_removed, run_filter_pass, spec_pass_visits};
use crate::record::{spec_total_size, FileRecord};
use crate::report::{spec_deleted_paths, spec_run_visits, ReportData, Visit};
use crate::text::spec_file_name;
use crate::utils::{cutoff_instant, parse_cutoff_date};
use crate::CleanError;

verus! {

/// Whether a record matches the age filter against the cutoff instant: its
/// modification time was readable and is strictly earlier.
pub open spec fn spec_age_matches(cutoff: i64, r: FileRecord) -> bool {
    r.modified matches Some(t) && t < cutoff
}

/// The visits of one age-filter pass.
pub open spec fn spec_age_visits(
    records: Seq<FileRecord>,
    cutoff: i64,
    entries: Seq<Seq<char>>,
) -> Seq<Visit> {
    records.map(
        |i: int, r: FileRecord|
            Visit {
                path: r.path@,
                size: r.size as nat,
                deleted: spec_age_matches(cutoff, r) && !spec_is_ignored(entries, r.path@),
            },
    )
}

/// One pass of the age filter over the walked records.  The cutoff-date
/// string is parsed first; a malformed date is the fatal error of the run
/// and leaves the report untouched.  Otherwise every record is counted
/// once; a record modified strictly before the cutoff goes through the
/// deletion gate, and the paths released for removal come back in walk
/// order — none on a dry run, and never a file whose name an ignore entry
/// matches.
pub fn directory_cleaner_based_on_age(
    records: &Vec<FileRecord>,
    date: &String,
    dry_run: bool,
    report_data: &mut ReportData,
    paths_to_ignore: &Vec<String>,
) -> (res: Result<Vec<String>, CleanError>)
    requires
        old(report_data)@.wf(),
        old(report_data)@.files_scanned + records@.len() <= u32::MAX,
        old(report_data)@.total_file_size_deleted + old(report_data)@.total_file_size_retained
            + spec_total_size(records@) <= u64::MAX,
    ensures
        match res {
            Ok(to_remove) => {
                &&& cutoff_instant(date@) is Some
                &&& final(report_data)@ == spec_run_visits(
                    old(report_data)@,
                    spec_age_visits(
                        records@,
                        cutoff_instant(date@).unwrap(),
                        paths_to_ignore.deep_view(),
                    ),
                )
                &&& final(report_data)@.wf()
                &&& to_remove.deep_view() == (if dry_run {
                    Seq::<Seq<char>>::empty()
                } else {
                    spec_deleted_paths(
                        spec_age_visits(
                            records@,
                            cutoff_instant(date@).unwrap(),
                            paths_to_ignore.deep_view(),
                        ),
                    )
                })
                &&& forall|i: int|
                    0 <= i < records@.len() && spec_ignored_by_name(
                        paths_to_ignore.deep_view(),
                        spec_file_name(records@[i].path@),
                    ) ==> !to_remove.deep_view().contains(records@[i].path@)
            },
            Err(e) => {
                &&& cutoff_instant(date@) is None
                &&& e == CleanError::InvalidCutoffDate
                &&& final(report_data)@ == old(report_data)@
            },
        },
{
    let cutoff = match parse_cutoff_date(date.as_str()) {
        Ok(c) => c,
        Err(e) => {
            return Err(e);
        },
    };
    let ghost entries = paths_to_ignore.deep_view();
    let n = records.len();
    let mut flags: Vec<bool> = Vec::new();
    let mut i: usize = 0;
    while i < n
        invariant
            n == records@.len(),
            i <= n,
            flags@.len() == i,
            forall|k: int| 0 <= k < i ==> flags@[k] == spec_age_matches(
                cutoff,
                #[trigger] records@[k],
            ),
        decreases n - i,
    {
        let flag = match records[i].modified {
            Some(t) => t < cutoff,
            None => false,
        };
        flags.push(flag);
        i = i + 1;
    }
    let to_remove = run_filter_pass(records, &flags, dry_run, report_data, paths_to_ignore);
    proof {
        assert(spec_pass_visits(records@, flags@, entries) =~= spec_age_visits(
            records@,
            cutoff,
            entries,
        ));
        assert forall|k: int|
            0 <= k < records@.len() && spec_ignored_by_name(
                entries,
                spec_file_name(records@[k].path@),
            ) implies !to_remove.deep_view().contains(records@[k].path@) by {
            if !dry_run {
                lemma_pass_ignored_name_never_removed(records@, flags@, entries, k);
            }
        }
    }
    Ok(to_remove)
}

} // verus!
