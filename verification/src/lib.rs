//! A directory-cleanup engine.
//!
//! Given the records of a walked file tree, the library decides which files a
//! cleanup pass removes, keeps an aggregate report of what was scanned,
//! deleted and retained, and renders that report.  Four filtering strategies
//! share one deletion gate that enforces the ignore-list and the dry-run mode.
//! The caller performs the actual tree walk and file removal and feeds plain
//! `FileRecord` values in; the library never touches the filesystem.

use vstd::prelude::*;

pub mod arg;
pub mod cleaner;
pub mod cleaner_file_duplicate;
pub mod cleaner_file_size;
pub mod cleaner_file_type;
pub mod cleaner_last_modified_time;
pub mod digits;
pub mod ignore;
pub mod pass;
pub mod record;
pub mod report;
pub mod text;
pub mod utils;

verus! {

/// The fatal error conditions of a cleanup run: everything else is either
/// skipped per entry or silently retained.
#[derive(Clone, Copy, Debug, PartialEq, Eq, Structural)]
pub enum CleanError {
    /// The cutoff date string is not a valid calendar date.
    InvalidCutoffDate,
    /// A size value in a configuration line is not a valid byte count.
    InvalidSizeValue,
    /// No root directory was given after the configuration was rebuilt.
    MissingDirectory,
}

} // verus!
