//! The size filter: deletes every regular file whose byte length reaches a
//! minimum threshold (an inclusive lower bound).  Smaller files are
//! retained.

use vstd::prelude::*;

use crate::ignore::{spec_ignored_by_name, spec_is_ignored};
use crate::pass::{lemma_pass_ignored_name_never_removed, run_filter_pass, spec_pass_visits};
use crate::record::{spec_total_size, FileRecord};
use crate::report::{spec_deleted_paths, spec_run_visits, ReportData, Visit};
use crate::text::spec_file_name;

verus! {

/// The visits of one size-filter pass: a record matches when its length is
/// at least `size`.
pub open spec fn spec_size_visits(
    records: Seq<FileRecord>,
    size: u64,
    entries: Seq<Seq<char>>,
) -> Seq<Visit> {
    records.map(
        |i: int, r: FileRecord|
            Visit {
                path: r.path@,
                size: r.size as nat,
                deleted: r.size >= size && !spec_is_ignored(entries, r.path@),
            },
    )
}

/// One pass of the size filter over the walked records.  Every record is
/// counted once; a record of at least `size` bytes goes through the
/// deletion gate, and the paths released for removal come back in walk
/// order — none on a dry run, and never a file whose name an ignore entry
/// matches.
pub fn directory_cleaner_based_on_file_size(
    records: &Vec<FileRecord>,
    size: u64,
    dry_run: bool,
    report_data: &mut ReportData,
    paths_to_ignore: &Vec<String>,
) -> (to_remove: Vec<String>)
    requires
        old(report_data)@.wf(),
        old(report_data)@.files_scanned + records@.len() <= u32::MAX,
        old(report_data)@.total_file_size_deleted + old(report_data)@.total_file_size_retained
            + spec_total_size(records@) <= u64::MAX,
    ensures
        final(report_data)@ == spec_run_visits(
            old(report_data)@,
            spec_size_visits(records@, size, paths_to_ignore.deep_view()),
        ),
        final(report_data)@.wf(),
        to_remove.deep_view() == (if dry_run {
            Seq::<Seq<char>>::empty()
        } else {
            spec_deleted_paths(spec_size_visits(records@, size, paths_to_ignore.deep_view()))
        }),
        forall|i: int|
            0 <= i < records@.len() && spec_ignored_by_name(
                paths_to_ignore.deep_view(),
                spec_file_name(records@[i].path@),
            ) ==> !to_remove.deep_view().contains(records@[i].path@),
{
    let ghost entries = paths_to_ignore.deep_view();
    let n = records.len();
    let mut flags: Vec<bool> = Vec::new();
    let mut i: usize = 0;
    while i < n
        invariant
            n == records@.len(),
            i <= n,
            flags@.len() == i,
            forall|k: int| 0 <= k < i ==> flags@[k] == (#[trigger] records@[k].size >= size),
        decreases n - i,
    {
        flags.push(records[i].size >= size);
        i = i + 1;
    }
    let to_remove = run_filter_pass(records, &flags, dry_run, report_data, paths_to_ignore);
    proof {
        assert(spec_pass_visits(records@, flags@, entries) =~= spec_size_visits(
            records@,
            size,
            entries,
        ));
        assert forall|k: int|
            0 <= k < records@.len() && spec_ignored_by_name(
                entries,
                spec_file_name(records@[k].path@),
            ) implies !to_remove.deep_view().contains(records@[k].path@) by {
            if !dry_run {
                lemma_pass_ignored_name_never_removed(records@, flags@, entries, k);
            }
        }
    }
    to_remove
}

} // verus!
