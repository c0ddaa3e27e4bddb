//! The shared body of every filtering strategy: given the walked records and
//! one match flag per record, route each match through the deletion gate,
//! record every visit into the report, and hand back the paths whose files
//! are to be removed.

use vstd::prelude::*;

use crate::ignore::{spec_ignored_by_name, spec_is_ignored, IgnoreSet};
use crate::text::spec_file_name;
use crate::record::{
    lemma_total_size_prefix_le, lemma_total_size_take_step, spec_total_size, FileRecord,
};
use crate::report::{
    collect_metrics, lemma_deleted_paths_membership, lemma_run_visits_delta,
    lemma_size_conservation, spec_deleted_paths, spec_run_visits, spec_visits_total_size,
    ReportData, Visit,
};
use crate::utils::{attempt_delete, GateOutcome};

verus! {

/// The visits one pass makes: record `i` is counted as deleted exactly when
/// its match flag is set and the ignore-list does not shield its path.  The
/// dry-run flag never changes the bucket, only whether anything is removed.
pub open spec fn spec_pass_visits(
    records: Seq<FileRecord>,
    flags: Seq<bool>,
    entries: Seq<Seq<char>>,
) -> Seq<Visit> {
    records.map(
        |i: int, r: FileRecord|
            Visit {
                path: r.path@,
                size: r.size as nat,
                deleted: flags[i] && !spec_is_ignored(entries, r.path@),
            },
    )
}

proof fn lemma_pass_visits_total_size(
    records: Seq<FileRecord>,
    flags: Seq<bool>,
    entries: Seq<Seq<char>>,
    j: int,
)
    requires
        flags.len() == records.len(),
        0 <= j <= records.len(),
    ensures
        spec_visits_total_size(spec_pass_visits(records, flags, entries).take(j))
            == spec_total_size(records.take(j)),
    decreases j,
{
    let vs = spec_pass_visits(records, flags, entries);
    if j > 0 {
        lemma_pass_visits_total_size(records, flags, entries, j - 1);
        assert(vs.take(j).drop_last() =~= vs.take(j - 1));
        assert(records.take(j).drop_last() =~= records.take(j - 1));
        assert(vs.take(j).last() == vs[j - 1]);
        assert(records.take(j).last() == records[j - 1]);
    }
}

/// Ignore precedence over one pass: a record whose file name matches an
/// ignore entry never reaches the removal list, whatever its match flag.
pub proof fn lemma_pass_ignored_name_never_removed(
    records: Seq<FileRecord>,
    flags: Seq<bool>,
    entries: Seq<Seq<char>>,
    i: int,
)
    requires
        flags.len() == records.len(),
        0 <= i < records.len(),
        spec_ignored_by_name(entries, spec_file_name(records[i].path@)),
    ensures
        !spec_deleted_paths(spec_pass_visits(records, flags, entries)).contains(records[i].path@),
{
    let vs = spec_pass_visits(records, flags, entries);
    let p = records[i].path@;
    lemma_deleted_paths_membership(vs, p);
    if spec_deleted_paths(vs).contains(p) {
        let j = choose|j: int| 0 <= j < vs.len() && #[trigger] vs[j].deleted && vs[j].path == p;
        assert(!spec_is_ignored(entries, records[j].path@));
        assert(spec_is_ignored(entries, p));
    }
}

/// Run one pass over the walked records.  Every record is recorded into the
/// report exactly once; a record whose flag is set goes through the deletion
/// gate, and the paths approved for removal come back in walk order.  On a
/// dry run that removal list is empty.
pub fn run_filter_pass(
    records: &Vec<FileRecord>,
    flags: &Vec<bool>,
    dry_run: bool,
    report_data: &mut ReportData,
    paths_to_ignore: &Vec<String>,
) -> (to_remove: Vec<String>)
    requires
        flags@.len() == records@.len(),
        old(report_data)@.wf(),
        old(report_data)@.files_scanned + records@.len() <= u32::MAX,
        old(report_data)@.total_file_size_deleted + old(report_data)@.total_file_size_retained
            + spec_total_size(records@) <= u64::MAX,
    ensures
        final(report_data)@ == spec_run_visits(
            old(report_data)@,
            spec_pass_visits(records@, flags@, paths_to_ignore.deep_view()),
        ),
        final(report_data)@.wf(),
        to_remove.deep_view() == (if dry_run {
            Seq::<Seq<char>>::empty()
        } else {
            spec_deleted_paths(spec_pass_visits(records@, flags@, paths_to_ignore.deep_view()))
        }),
{
    let ignore = IgnoreSet::from_entries(paths_to_ignore);
    let ghost entries = paths_to_ignore.deep_view();
    let ghost vs = spec_pass_visits(records@, flags@, entries);
    let ghost v0 = report_data@;
    let mut to_remove: Vec<String> = Vec::new();
    let n = records.len();
    let mut i: usize = 0;
    proof {
        assert(vs.take(0) =~= Seq::<Visit>::empty());
        assert(to_remove.deep_view() =~= Seq::<Seq<char>>::empty());
    }
    while i < n
        invariant
            n == records@.len(),
            flags@.len() == n,
            i <= n,
            ignore@ == entries,
            vs == spec_pass_visits(records@, flags@, entries),
            v0.wf(),
            v0.files_scanned + n <= u32::MAX,
            v0.total_file_size_deleted + v0.total_file_size_retained + spec_total_size(records@)
                <= u64::MAX,
            report_data@ == spec_run_visits(v0, vs.take(i as int)),
            report_data@.wf(),
            to_remove.deep_view() == (if dry_run {
                Seq::<Seq<char>>::empty()
            } else {
                spec_deleted_paths(vs.take(i as int))
            }),
        decreases n - i,
    {
        let r = &records[i];
        let flag = flags[i];
        let ghost pre_remove = to_remove.deep_view();
        let mut deleted = false;
        if flag {
            match attempt_delete(r.path.as_str(), dry_run, &ignore) {
                GateOutcome::Deleted => {
                    deleted = true;
                    to_remove.push(r.path.clone());
                },
                GateOutcome::SkippedDryRun => {
                    deleted = true;
                },
                GateOutcome::SkippedIgnored => {
                },
            }
        }
        proof {
            assert(vs[i as int] == Visit {
                path: records@[i as int].path@,
                size: records@[i as int].size as nat,
                deleted: flags@[i as int] && !spec_is_ignored(entries, records@[i as int].path@),
            });
            assert(deleted == vs[i as int].deleted);
            // Bounds for recording this visit.
            lemma_run_visits_delta(v0, vs.take(i as int));
            lemma_size_conservation(v0, vs.take(i as int));
            lemma_pass_visits_total_size(records@, flags@, entries, i as int);
            lemma_total_size_take_step(records@, i as int);
            lemma_total_size_prefix_le(records@, i + 1);
        }
        collect_metrics(report_data, r.size, r.path.as_str(), deleted);
        proof {
            assert(vs.take(i + 1).drop_last() =~= vs.take(i as int));
            assert(vs.take(i + 1).last() == vs[i as int]);
            assert(report_data@ == spec_run_visits(v0, vs.take(i + 1)));
            if !dry_run {
                if deleted {
                    assert(to_remove.deep_view() =~= pre_remove.push(records@[i as int].path@));
                    assert(spec_deleted_paths(vs.take(i + 1)) == spec_deleted_paths(
                        vs.take(i as int),
                    ).push(vs[i as int].path));
                } else {
                    assert(to_remove.deep_view() =~= pre_remove);
                }
            } else {
                assert(to_remove.deep_view() =~= pre_remove);
            }
        }
        i = i + 1;
    }
    proof {
        assert(vs.take(n as int) =~= vs);
    }
    to_remove
}

} // verus!
