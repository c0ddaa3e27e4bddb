//! The plain combined cleaner: one pass that selects files by extension and
//! minimum size together, with no report, no ignore-list and no dry-run
//! mode.  It predates the gated strategies and is kept for callers that
//! only need the combined selection.

use vstd::prelude::*;

use crate::record::FileRecord;
use crate::text::{extension_of, file_name_of, spec_extension, spec_file_name, vec_contains_str};

verus! {

/// Whether one record is selected: its extension is among the targets and
/// its length reaches `size`.
pub open spec fn spec_cleaner_selects(
    r: FileRecord,
    types: Seq<Seq<char>>,
    size: u64,
) -> bool {
    types.contains(spec_extension(spec_file_name(r.path@))) && r.size >= size
}

/// The paths the combined cleaner removes, in walk order.
pub open spec fn spec_cleaner_removals(
    records: Seq<FileRecord>,
    types: Seq<Seq<char>>,
    size: u64,
) -> Seq<Seq<char>>
    decreases records.len(),
{
    if records.len() == 0 {
        Seq::empty()
    } else {
        let prev = spec_cleaner_removals(records.drop_last(), types, size);
        if spec_cleaner_selects(records.last(), types, size) {
            prev.push(records.last().path@)
        } else {
            prev
        }
    }
}

/// Select, over the walked records, every file whose extension is among
/// `paths_to_clear` and whose length is at least `size` bytes; the paths of
/// exactly those files come back, in walk order, for the caller to remove.
pub fn directory_cleaner(
    records: &Vec<FileRecord>,
    paths_to_clear: &Vec<String>,
    size: u64,
) -> (to_remove: Vec<String>)
    ensures
        to_remove.deep_view() == spec_cleaner_removals(
            records@,
            paths_to_clear.deep_view(),
            size,
        ),
{
    let ghost types = paths_to_clear.deep_view();
    let n = records.len();
    let mut to_remove: Vec<String> = Vec::new();
    let mut i: usize = 0;
    proof {
        assert(records@.take(0) =~= Seq::<FileRecord>::empty());
        assert(to_remove.deep_view() =~= Seq::<Seq<char>>::empty());
    }
    while i < n
        invariant
            n == records@.len(),
            i <= n,
            types == paths_to_clear.deep_view(),
            to_remove.deep_view() == spec_cleaner_removals(records@.take(i as int), types, size),
        decreases n - i,
    {
        let ghost pre = to_remove.deep_view();
        let r = &records[i];
        let name = file_name_of(r.path.as_str());
        let ext = extension_of(name);
        if vec_contains_str(paths_to_clear, ext) && r.size >= size {
            to_remove.push(r.path.clone());
            proof {
                assert(to_remove.deep_view() =~= pre.push(records@[i as int].path@));
            }
        }
        proof {
            assert(records@.take(i + 1).drop_last() =~= records@.take(i as int));
            assert(records@.take(i + 1).last() == records@[i as int]);
        }
        i = i + 1;
    }
    proof {
        assert(records@.take(n as int) =~= records@);
    }
    to_remove
}

} // verus!
