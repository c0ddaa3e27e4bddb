//! The type filter: deletes every regular file whose extension
//! (case-sensitive, without the leading dot) is among the target extensions.
//! Files outside the extension set are still counted as scanned and
//! retained, so the aggregate report reflects the whole subtree.

use vstd::prelude::*;

use crate::ignore::{spec_ignored_by_name, spec_is_ignored};
use crate::pass::{lemma_pass_ignored_name_never_removed, run_filter_pass, spec_pass_visits};
use crate::record::{spec_total_size, FileRecord};
use crate::report::{spec_deleted_paths, spec_run_visits, ReportData, Visit};
use crate::text::{extension_of, file_name_of, spec_extension, spec_file_name, vec_contains_str};

verus! {

/// Whether the file at `path` matches the filter: its extension is a member
/// of the target set.
pub open spec fn spec_type_matches(types: Seq<Seq<char>>, path: Seq<char>) -> bool {
    types.contains(spec_extension(spec_file_name(path)))
}

/// The visits of one type-filter pass.
pub open spec fn spec_type_visits(
    records: Seq<FileRecord>,
    types: Seq<Seq<char>>,
    entries: Seq<Seq<char>>,
) -> Seq<Visit> {
    records.map(
        |i: int, r: FileRecord|
            Visit {
                path: r.path@,
                size: r.size as nat,
                deleted: spec_type_matches(types, r.path@) && !spec_is_ignored(entries, r.path@),
            },
    )
}

/// One pass of the type filter over the walked records.  Every record is
/// counted once; a record whose extension is in `types_to_clear` goes
/// through the deletion gate, and the paths released for removal come back
/// in walk order — none on a dry run, and never a file whose name an ignore
/// entry matches.
pub fn directory_cleaner_based_on_file_type(
    records: &Vec<FileRecord>,
    types_to_clear: &Vec<String>,
    dry_run: bool,
    report_data: &mut ReportData,
    paths_to_ignore: &Vec<String>,
) -> (to_remove: Vec<String>)
    requires
        old(report_data)@.wf(),
        old(report_data)@.files_scanned + records@.len() <= u32::MAX,
        old(report_data)@.total_file_size_deleted + old(report_data)@.total_file_size_retained
            + spec_total_size(records@) <= u64::MAX,
    ensures
        final(report_data)@ == spec_run_visits(
            old(report_data)@,
            spec_type_visits(records@, types_to_clear.deep_view(), paths_to_ignore.deep_view()),
        ),
        final(report_data)@.wf(),
        to_remove.deep_view() == (if dry_run {
            Seq::<Seq<char>>::empty()
        } else {
            spec_deleted_paths(
                spec_type_visits(
                    records@,
                    types_to_clear.deep_view(),
                    paths_to_ignore.deep_view(),
                ),
            )
        }),
        forall|i: int|
            0 <= i < records@.len() && spec_ignored_by_name(
                paths_to_ignore.deep_view(),
                spec_file_name(records@[i].path@),
            ) ==> !to_remove.deep_view().contains(records@[i].path@),
{
    let ghost types = types_to_clear.deep_view();
    let ghost entries = paths_to_ignore.deep_view();
    let n = records.len();
    let mut flags: Vec<bool> = Vec::new();
    let mut i: usize = 0;
    while i < n
        invariant
            n == records@.len(),
            i <= n,
            types == types_to_clear.deep_view(),
            flags@.len() == i,
            forall|k: int| 0 <= k < i ==> flags@[k] == spec_type_matches(
                types,
                #[trigger] records@[k].path@,
            ),
        decreases n - i,
    {
        let name = file_name_of(records[i].path.as_str());
        let ext = extension_of(name);
        flags.push(vec_contains_str(types_to_clear, ext));
        i = i + 1;
    }
    let to_remove = run_filter_pass(records, &flags, dry_run, report_data, paths_to_ignore);
    proof {
        assert(spec_pass_visits(records@, flags@, entries) =~= spec_type_visits(
            records@,
            types,
            entries,
        ));
        assert forall|k: int|
            0 <= k < records@.len() && spec_ignored_by_name(
                entries,
                spec_file_name(records@[k].path@),
            ) implies !to_remove.deep_view().contains(records@[k].path@) by {
            if !dry_run {
                lemma_pass_ignored_name_never_removed(records@, flags@, entries, k);
            }
        }
    }
    to_remove
}

} // verus!
