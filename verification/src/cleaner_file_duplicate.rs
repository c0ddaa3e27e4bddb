//! The duplicate filter: walks the records once, keeping the set of
//! duplicate keys seen so far.  A file whose key was already seen is a
//! deletion candidate; the first occurrence in walk order is the one that
//! survives.  The key is a cheap heuristic — the first whitespace-delimited
//! token of the file name plus the byte length — not a content hash.

use vstd::prelude::*;

use crate::ignore::{spec_ignored_by_name, spec_is_ignored};
use crate::pass::{lemma_pass_ignored_name_never_removed, run_filter_pass, spec_pass_visits};
use crate::record::{spec_total_size, FileRecord};
use crate::report::{
    lemma_deleted_paths_membership, spec_deleted_paths, spec_run_visits, ReportData, Visit,
};
use crate::text::{file_name_of, first_token, spec_file_name, spec_first_token, str_eq};

verus! {

/// The heuristic identity under which two files count as duplicates.
pub struct DuplicateKey {
    pub token: String,
    pub size: u64,
}

impl DuplicateKey {
    pub open spec fn spec_key(self) -> (Seq<char>, u64) {
        (self.token@, self.size)
    }
}

/// The duplicate key of the file at `path` with length `file_size`: the
/// first whitespace-delimited token of its file name, plus that length.
pub fn get_file_key(path: &str, file_size: u64) -> (k: DuplicateKey)
    ensures
        k.spec_key() == (spec_first_token(spec_file_name(path@)), file_size),
{
    let name = file_name_of(path);
    let token = first_token(name);
    DuplicateKey { token: token.to_owned(), size: file_size }
}

/// Whether some earlier record of the walk carries the same key as record
/// `i`: record `i` is then the duplicate, and the earlier one is preserved.
pub open spec fn spec_dup_matches(records: Seq<FileRecord>, i: int) -> bool {
    exists|j: int| 0 <= j < i && (#[trigger] records[j]).spec_key() == records[i].spec_key()
}

/// The visits of one duplicate-filter pass.
pub open spec fn spec_dup_visits(records: Seq<FileRecord>, entries: Seq<Seq<char>>) -> Seq<Visit> {
    records.map(
        |i: int, r: FileRecord|
            Visit {
                path: r.path@,
                size: r.size as nat,
                deleted: spec_dup_matches(records, i) && !spec_is_ignored(entries, r.path@),
            },
    )
}

/// The keys held in a seen-list.
pub open spec fn spec_keys_of(seen: Seq<DuplicateKey>) -> Seq<(Seq<char>, u64)> {
    seen.map_values(|d: DuplicateKey| d.spec_key())
}

/// The distinct keys of the first `i` records, in first-occurrence order:
/// the state of the seen-list after those records.
pub open spec fn spec_seen_keys(records: Seq<FileRecord>, i: int) -> Seq<(Seq<char>, u64)>
    decreases i,
{
    if i <= 0 {
        Seq::empty()
    } else {
        let prev = spec_seen_keys(records, i - 1);
        if prev.contains(records[i - 1].spec_key()) {
            prev
        } else {
            prev.push(records[i - 1].spec_key())
        }
    }
}

proof fn lemma_seen_keys_contains(records: Seq<FileRecord>, i: int, p: (Seq<char>, u64))
    requires
        0 <= i <= records.len(),
    ensures
        spec_seen_keys(records, i).contains(p) <==> exists|j: int|
            0 <= j < i && (#[trigger] records[j]).spec_key() == p,
    decreases i,
{
    if i > 0 {
        lemma_seen_keys_contains(records, i - 1, p);
        let prev = spec_seen_keys(records, i - 1);
        let cur = spec_seen_keys(records, i);
        let ki = records[i - 1].spec_key();
        if cur.contains(p) {
            let m = choose|m: int| 0 <= m < cur.len() && cur[m] == p;
            if m < prev.len() {
                assert(prev[m] == p);
                assert(prev.contains(p));
                let j = choose|j: int| 0 <= j < i - 1 && (#[trigger] records[j]).spec_key() == p;
                assert(0 <= j < i && records[j].spec_key() == p);
            } else {
                assert(p == ki);
                assert((#[trigger] records[i - 1]).spec_key() == p);
            }
        }
        if exists|j: int| 0 <= j < i && (#[trigger] records[j]).spec_key() == p {
            let j = choose|j: int| 0 <= j < i && (#[trigger] records[j]).spec_key() == p;
            if j == i - 1 {
                if prev.contains(ki) {
                    assert(cur.contains(p));
                } else {
                    assert(cur[prev.len() as int] == ki);
                    assert(cur.contains(p));
                }
            } else {
                assert(prev.contains(p));
                let m = choose|m: int| 0 <= m < prev.len() && prev[m] == p;
                assert(cur[m] == p);
                assert(cur.contains(p));
            }
        }
    }
}

fn seen_contains(seen: &Vec<DuplicateKey>, key: &DuplicateKey) -> (r: bool)
    ensures
        r == spec_keys_of(seen@).contains(key.spec_key()),
{
    let n = seen.len();
    let mut i: usize = 0;
    while i < n
        invariant
            n == seen@.len(),
            i <= n,
            forall|m: int| 0 <= m < i ==> #[trigger] spec_keys_of(seen@)[m] != key.spec_key(),
        decreases n - i,
    {
        if str_eq(seen[i].token.as_str(), key.token.as_str()) && seen[i].size == key.size {
            proof {
                assert(spec_keys_of(seen@)[i as int] == key.spec_key());
            }
            return true;
        }
        proof {
            assert(spec_keys_of(seen@)[i as int] == seen@[i as int].spec_key());
        }
        i = i + 1;
    }
    false
}

/// One pass of the duplicate filter over the walked records.  Every record
/// is counted once; a record whose key repeats an earlier record's key goes
/// through the deletion gate, and the paths released for removal come back
/// in walk order — none on a dry run, and never a file whose name an
/// ignore entry matches.
pub fn directory_cleaner_based_on_duplicate_files(
    records: &Vec<FileRecord>,
    dry_run: bool,
    report_data: &mut ReportData,
    paths_to_ignore: &Vec<String>,
) -> (to_remove: Vec<String>)
    requires
        old(report_data)@.wf(),
        old(report_data)@.files_scanned + records@.len() <= u32::MAX,
        old(report_data)@.total_file_size_deleted + old(report_data)@.total_file_size_retained
            + spec_total_size(records@) <= u64::MAX,
    ensures
        final(report_data)@ == spec_run_visits(
            old(report_data)@,
            spec_dup_visits(records@, paths_to_ignore.deep_view()),
        ),
        final(report_data)@.wf(),
        to_remove.deep_view() == (if dry_run {
            Seq::<Seq<char>>::empty()
        } else {
            spec_deleted_paths(spec_dup_visits(records@, paths_to_ignore.deep_view()))
        }),
        forall|i: int|
            0 <= i < records@.len() && spec_ignored_by_name(
                paths_to_ignore.deep_view(),
                spec_file_name(records@[i].path@),
            ) ==> !to_remove.deep_view().contains(records@[i].path@),
{
    let ghost entries = paths_to_ignore.deep_view();
    let n = records.len();
    let mut flags: Vec<bool> = Vec::new();
    let mut seen: Vec<DuplicateKey> = Vec::new();
    let mut i: usize = 0;
    proof {
        assert(spec_keys_of(seen@) =~= spec_seen_keys(records@, 0));
    }
    while i < n
        invariant
            n == records@.len(),
            i <= n,
            flags@.len() == i,
            forall|k: int| 0 <= k < i ==> #[trigger] flags@[k] == spec_dup_matches(records@, k),
            spec_keys_of(seen@) == spec_seen_keys(records@, i as int),
        decreases n - i,
    {
        let key = get_file_key(records[i].path.as_str(), records[i].size);
        let flag = seen_contains(&seen, &key);
        let ghost pre_map = spec_keys_of(seen@);
        proof {
            lemma_seen_keys_contains(records@, i as int, key.spec_key());
            assert(flag == spec_dup_matches(records@, i as int));
        }
        flags.push(flag);
        if !flag {
            seen.push(key);
            proof {
                assert(spec_keys_of(seen@) =~= pre_map.push(key.spec_key()));
            }
        }
        proof {
            assert(spec_keys_of(seen@) == spec_seen_keys(records@, i + 1));
        }
        i = i + 1;
    }
    let to_remove = run_filter_pass(records, &flags, dry_run, report_data, paths_to_ignore);
    proof {
        assert(spec_pass_visits(records@, flags@, entries) =~= spec_dup_visits(records@, entries));
        assert forall|k: int|
            0 <= k < records@.len() && spec_ignored_by_name(
                entries,
                spec_file_name(records@[k].path@),
            ) implies !to_remove.deep_view().contains(records@[k].path@) by {
            if !dry_run {
                lemma_pass_ignored_name_never_removed(records@, flags@, entries, k);
            }
        }
    }
    to_remove
}

/// Duplicate retention order: when records `i` and `j` share a key, `i`
/// comes first in walk order and carries the first occurrence of that key,
/// and the ignore-list does not shield record `j`, then a non-dry-run pass
/// removes record `j` and leaves record `i` alone — the survivor is the
/// first one walked, not merely "one of the two".
pub proof fn lemma_duplicate_retention_order(
    records: Seq<FileRecord>,
    entries: Seq<Seq<char>>,
    i: int,
    j: int,
)
    requires
        0 <= i < j < records.len(),
        records[i].spec_key() == records[j].spec_key(),
        forall|k: int| 0 <= k < i ==> (#[trigger] records[k]).spec_key() != records[i].spec_key(),
        !spec_is_ignored(entries, records[j].path@),
        forall|a: int, b: int| 0 <= a < b < records.len() ==> records[a].path@ != records[b].path@,
    ensures
        spec_deleted_paths(spec_dup_visits(records, entries)).contains(records[j].path@),
        !spec_deleted_paths(spec_dup_visits(records, entries)).contains(records[i].path@),
{
    let vs = spec_dup_visits(records, entries);
    lemma_deleted_paths_membership(vs, records[j].path@);
    lemma_deleted_paths_membership(vs, records[i].path@);
    assert((#[trigger] records[i]).spec_key() == records[j].spec_key());
    assert(spec_dup_matches(records, j));
    assert(vs[j].deleted && vs[j].path == records[j].path@);
    if spec_deleted_paths(vs).contains(records[i].path@) {
        let k = choose|k: int|
            0 <= k < vs.len() && #[trigger] vs[k].deleted && vs[k].path == records[i].path@;
        assert forall|a: int, b: int|
            0 <= a < records.len() && 0 <= b < records.len() && a != b implies records[a].path@
            != records[b].path@ by {
            if a < b {
                assert(records[a].path@ != records[b].path@);
            } else {
                assert(records[b].path@ != records[a].path@);
            }
        }
        assert(k == i);
        assert(spec_dup_matches(records, i));
        let m = choose|m: int|
            0 <= m < i && (#[trigger] records[m]).spec_key() == records[i].spec_key();
        assert(records[m].spec_key() != records[i].spec_key());
    }
}

} // verus!
