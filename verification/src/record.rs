//! The ephemeral per-file record that a tree walk produces: one record per
//! regular file, carrying what the filters need to classify it.

use vstd::prelude::*;

use crate::text::{spec_extension, spec_file_name, spec_first_token};

verus! {

/// One regular file as seen at walk time: its path, its byte length, and its
/// last-modified instant in seconds since the Unix epoch, when that instant
/// could be read.
pub struct FileRecord {
    pub path: String,
    pub size: u64,
    pub modified: Option<i64>,
}

impl FileRecord {
    /// The final path segment.
    pub open spec fn spec_name(self) -> Seq<char> {
        spec_file_name(self.path@)
    }

    /// The extension of the file name.
    pub open spec fn spec_ext(self) -> Seq<char> {
        spec_extension(spec_file_name(self.path@))
    }

    /// The duplicate-detection key: the first whitespace-delimited token of
    /// the file name, paired with the byte length.  A heuristic identity, not
    /// a content hash.
    pub open spec fn spec_key(self) -> (Seq<char>, u64) {
        (spec_first_token(spec_file_name(self.path@)), self.size)
    }
}

/// The sum of the byte lengths of a run of records.
pub open spec fn spec_total_size(records: Seq<FileRecord>) -> nat
    decreases records.len(),
{
    if records.len() == 0 {
        0
    } else {
        spec_total_size(records.drop_last()) + records.last().size as nat
    }
}

pub proof fn lemma_total_size_take_step(records: Seq<FileRecord>, j: int)
    requires
        0 <= j < records.len(),
    ensures
        spec_total_size(records.take(j + 1)) == spec_total_size(records.take(j))
            + records[j].size,
{
    assert(records.take(j + 1).drop_last() =~= records.take(j));
}

pub proof fn lemma_total_size_prefix_le(records: Seq<FileRecord>, j: int)
    requires
        0 <= j <= records.len(),
    ensures
        spec_total_size(records.take(j)) <= spec_total_size(records),
    decreases records.len() - j,
{
    if j == records.len() {
        assert(records.take(j) =~= records);
    } else {
        lemma_total_size_take_step(records, j);
        lemma_total_size_prefix_le(records, j + 1);
    }
}

} // verus!
