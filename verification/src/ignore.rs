//! The ignore-list: exclusion rules that shield files from deletion.  Two
//! independent predicates, either one sufficient: an exact file-name match
//! (the final path segment of an entry against the candidate's file name),
//! and a path-prefix match (subtree exclusion).

use vstd::prelude::*;

use crate::text::{file_name_of, prefix_matches, spec_file_name, spec_prefix_match, str_eq};

verus! {

/// Whether some entry's file name equals `name`.
pub open spec fn spec_ignored_by_name(entries: Seq<Seq<char>>, name: Seq<char>) -> bool {
    exists|i: int| 0 <= i < entries.len() && #[trigger] spec_file_name(entries[i]) == name
}

/// Whether some entry is a subtree prefix of `path`.
pub open spec fn spec_ignored_by_prefix(entries: Seq<Seq<char>>, path: Seq<char>) -> bool {
    exists|i: int| 0 <= i < entries.len() && #[trigger] spec_prefix_match(entries[i], path)
}

/// Whether `path` must be excluded from deletion: its file name matches an
/// entry's file name, or it lies under an entry's subtree.  An empty entry
/// list never ignores.
pub open spec fn spec_is_ignored(entries: Seq<Seq<char>>, path: Seq<char>) -> bool {
    spec_ignored_by_name(entries, spec_file_name(path)) || spec_ignored_by_prefix(entries, path)
}

/// The ignore-list of one cleanup pass, built once from configuration and
/// immutable while the pass runs.
pub struct IgnoreSet {
    pub entries: Vec<String>,
}

impl View for IgnoreSet {
    type V = Seq<Seq<char>>;

    open spec fn view(&self) -> Seq<Seq<char>> {
        self.entries.deep_view()
    }
}

impl IgnoreSet {
    pub fn from_entries(entries: &Vec<String>) -> (r: IgnoreSet)
        ensures
            r@ == entries.deep_view(),
    {
        let n = entries.len();
        let mut es: Vec<String> = Vec::new();
        let mut i: usize = 0;
        while i < n
            invariant
                n == entries@.len(),
                i <= n,
                es@.len() == i,
                forall|k: int| 0 <= k < i ==> es@[k]@ == entries@[k]@,
            decreases n - i,
        {
            es.push(entries[i].clone());
            i = i + 1;
        }
        proof {
            assert(es.deep_view() =~= entries.deep_view());
        }
        IgnoreSet { entries: es }
    }

    /// Whether `name` equals the file name of any entry.
    pub fn is_ignored_name(&self, name: &str) -> (r: bool)
        ensures
            r == spec_ignored_by_name(self@, name@),
    {
        let n = self.entries.len();
        let mut i: usize = 0;
        while i < n
            invariant
                n == self.entries@.len(),
                i <= n,
                forall|k: int| 0 <= k < i ==> #[trigger] spec_file_name(self@[k]) != name@,
            decreases n - i,
        {
            let en = file_name_of(self.entries[i].as_str());
            if str_eq(en, name) {
                proof {
                    assert(spec_file_name(self@[i as int]) == name@);
                }
                return true;
            }
            i = i + 1;
        }
        false
    }

    /// Whether any entry is a subtree prefix of `path`.
    pub fn is_ignored_prefix(&self, path: &str) -> (r: bool)
        ensures
            r == spec_ignored_by_prefix(self@, path@),
    {
        let n = self.entries.len();
        let mut i: usize = 0;
        while i < n
            invariant
                n == self.entries@.len(),
                i <= n,
                forall|k: int| 0 <= k < i ==> !#[trigger] spec_prefix_match(self@[k], path@),
            decreases n - i,
        {
            if prefix_matches(self.entries[i].as_str(), path) {
                proof {
                    assert(spec_prefix_match(self@[i as int], path@));
                }
                return true;
            }
            i = i + 1;
        }
        false
    }

    /// Whether `path` is excluded from deletion by either predicate.
    pub fn is_ignored(&self, path: &str) -> (r: bool)
        ensures
            r == spec_is_ignored(self@, path@),
    {
        let name = file_name_of(path);
        self.is_ignored_name(name) || self.is_ignored_prefix(path)
    }
}

} // verus!
