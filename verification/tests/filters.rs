use dir_cleaner::cleaner::directory_cleaner;
use dir_cleaner::cleaner_file_duplicate::directory_cleaner_based_on_duplicate_files;
use dir_cleaner::cleaner_file_size::directory_cleaner_based_on_file_size;
use dir_cleaner::cleaner_file_type::directory_cleaner_based_on_file_type;
use dir_cleaner::record::FileRecord;
use dir_cleaner::report::ReportData;

fn record(path: &str, size: u64) -> FileRecord {
    FileRecord {
        path: path.to_string(),
        size,
        modified: None,
    }
}

#[test]
fn test_directory_cleaner_should_delete_files_of_the_specified_file_type() {
    let records = vec![record("tmp/test.txt", 1000)];
    let mut report = ReportData::new();
    let to_remove = directory_cleaner_based_on_file_type(
        &records,
        &vec!["txt".to_string()],
        false,
        &mut report,
        &vec![],
    );
    assert_eq!(
        to_remove,
        vec!["tmp/test.txt".to_string()],
        "File should have been deleted"
    );
    assert_eq!(report.files_scanned, 1);
    assert_eq!(report.files_deleted, 1);
}

#[test]
fn test_directory_cleaner_should_not_delete_files_of_the_specified_file_type_in_dry_run_mode() {
    let records = vec![record("tmp/test.txt", 1000)];
    let mut report = ReportData::new();
    let to_remove = directory_cleaner_based_on_file_type(
        &records,
        &vec!["txt".to_string()],
        true,
        &mut report,
        &vec![],
    );
    assert!(
        to_remove.is_empty(),
        "File shouldn't be deleted in dry run"
    );
}

#[test]
fn test_directory_cleaner_should_delete_files_greater_than_the_specified_min_size() {
    let records = vec![record("tmp/test1.txt", 4000), record("tmp/test2.txt", 500)];
    let mut report = ReportData::new();
    let to_remove =
        directory_cleaner_based_on_file_size(&records, 2000, false, &mut report, &vec![]);
    assert!(
        to_remove.contains(&"tmp/test1.txt".to_string()),
        "File should be deleted as it's more than the minimum size"
    );
    assert!(
        !to_remove.contains(&"tmp/test2.txt".to_string()),
        "File should not be deleted as it's less than the minimum size"
    );
}

#[test]
fn test_directory_cleaner_should_not_delete_files_greater_than_the_specified_min_size_in_dry_run_mode(
) {
    let records = vec![record("tmp/test1.txt", 4000), record("tmp/test2.txt", 500)];
    let mut report = ReportData::new();
    let to_remove =
        directory_cleaner_based_on_file_size(&records, 2000, true, &mut report, &vec![]);
    assert!(to_remove.is_empty(), "File should not be deleted in dry run mode");
}

#[test]
fn test_directory_cleaner_should_delete_files_that_are_duplicates() {
    let records = vec![
        record("tmp/test 1.txt", 4000),
        record("tmp/test 2.txt", 4000),
        record("tmp/test 3.txt", 5000),
    ];
    let mut report = ReportData::new();
    let to_remove =
        directory_cleaner_based_on_duplicate_files(&records, false, &mut report, &vec![]);
    assert_eq!(
        to_remove,
        vec!["tmp/test 2.txt".to_string()],
        "One of test 1 or test 2 should be deleted"
    );
    assert!(
        !to_remove.contains(&"tmp/test 3.txt".to_string()),
        "test 3 shouldn't be deleted"
    );
}

#[test]
fn test_directory_cleaner_should_not_delete_files_that_are_duplicates_in_dry_run() {
    let records = vec![
        record("tmp/test 1.txt", 4000),
        record("tmp/test 2.txt", 4000),
        record("tmp/test 3.txt", 5000),
    ];
    let mut report = ReportData::new();
    let to_remove =
        directory_cleaner_based_on_duplicate_files(&records, true, &mut report, &vec![]);
    assert!(to_remove.is_empty(), "All files should still exist");
}

#[test]
fn test_directory_cleaner_should_delete_files_within_file_limit_and_are_duplicates() {
    // First pass: duplicates.  The second of the two 4000-byte files goes.
    let records = vec![
        record("tmp/test 1.txt", 4000),
        record("tmp/test 2.txt", 4000),
        record("tmp/test 3.txt", 5000),
    ];
    let mut report = ReportData::new();
    let removed_first =
        directory_cleaner_based_on_duplicate_files(&records, false, &mut report, &vec![]);
    assert_eq!(
        removed_first,
        vec!["tmp/test 2.txt".to_string()],
        "One of test 1 or test 2 should be deleted"
    );

    // Second pass re-walks the smaller tree: only the survivors remain.
    let remaining = vec![record("tmp/test 1.txt", 4000), record("tmp/test 3.txt", 5000)];
    let removed_second =
        directory_cleaner_based_on_file_size(&remaining, 4500, false, &mut report, &vec![]);
    assert_eq!(
        removed_second,
        vec!["tmp/test 3.txt".to_string()],
        "test 3 should now be deleted"
    );
    // Metrics accumulate additively across the two passes.
    assert_eq!(report.files_scanned, 5);
    assert_eq!(report.files_deleted, 2);
}

#[test]
fn test_directory_cleaner_should_not_delete_files_within_file_limit_and_are_duplicates_in_dry_run()
{
    let records = vec![
        record("tmp/test 1.txt", 4000),
        record("tmp/test 2.txt", 4000),
        record("tmp/test 3.txt", 5000),
    ];
    let mut report = ReportData::new();
    let removed_first =
        directory_cleaner_based_on_duplicate_files(&records, true, &mut report, &vec![]);
    assert!(removed_first.is_empty(), "All files should still exist");
    // Nothing was removed, so the dry second pass walks the same records.
    let removed_second =
        directory_cleaner_based_on_file_size(&records, 4500, true, &mut report, &vec![]);
    assert!(removed_second.is_empty(), "All files should still exist");
}

#[test]
fn test_directory_cleaner_ignores_paths() {
    // Two .txt files; the books directory is in the ignore list, so its
    // file survives a type pass that would otherwise delete it.
    let records = vec![
        record("Files/Documents/books/book1.txt", 25),
        record("Files/Documents/texts/text1.txt", 25),
    ];
    let mut report = ReportData::new();
    let to_remove = directory_cleaner_based_on_file_type(
        &records,
        &vec!["txt".to_string()],
        false,
        &mut report,
        &vec!["Files/Documents/books".to_string()],
    );
    assert!(
        !to_remove.contains(&"Files/Documents/books/book1.txt".to_string()),
        "Book file should not be deleted"
    );
    assert!(
        to_remove.contains(&"Files/Documents/texts/text1.txt".to_string()),
        "Text file should be deleted"
    );
}

#[test]
fn ignored_name_survives_every_filter() {
    // A file whose name matches an ignore entry is never deleted, whatever
    // the filter and whatever else matches.
    let records = vec![record("tmp/precious.txt", 9000), record("tmp/junk.txt", 9000)];
    let ignore = vec!["somewhere/else/precious.txt".to_string()];

    let mut report = ReportData::new();
    let by_type = directory_cleaner_based_on_file_type(
        &records,
        &vec!["txt".to_string()],
        false,
        &mut report,
        &ignore,
    );
    assert!(!by_type.contains(&"tmp/precious.txt".to_string()));
    assert!(by_type.contains(&"tmp/junk.txt".to_string()));

    let by_size = directory_cleaner_based_on_file_size(&records, 1, false, &mut report, &ignore);
    assert!(!by_size.contains(&"tmp/precious.txt".to_string()));

    let twins = vec![record("a/precious.txt", 500), record("b/precious.txt", 500)];
    let by_dup =
        directory_cleaner_based_on_duplicate_files(&twins, false, &mut report, &ignore);
    assert!(by_dup.is_empty());
}

#[test]
fn duplicate_filter_keeps_first_in_walk_order() {
    // Survivor identity, not just "one survives": the first walked stays.
    let records = vec![record("z/test 9.txt", 4000), record("a/test 1.txt", 4000)];
    let mut report = ReportData::new();
    let to_remove =
        directory_cleaner_based_on_duplicate_files(&records, false, &mut report, &vec![]);
    assert_eq!(to_remove, vec!["a/test 1.txt".to_string()]);
}

#[test]
fn duplicate_filter_needs_both_token_and_size_to_match() {
    let records = vec![
        record("tmp/test 1.txt", 4000),
        record("tmp/test 2.txt", 4001),
        record("tmp/other 1.txt", 4000),
    ];
    let mut report = ReportData::new();
    let to_remove =
        directory_cleaner_based_on_duplicate_files(&records, false, &mut report, &vec![]);
    assert!(to_remove.is_empty());
}

#[test]
fn dry_run_twice_produces_identical_metrics() {
    let records = vec![record("tmp/a.txt", 4000), record("tmp/b.txt", 500)];
    let mut first = ReportData::new();
    let removed =
        directory_cleaner_based_on_file_size(&records, 2000, true, &mut first, &vec![]);
    assert!(removed.is_empty());
    let mut second = ReportData::new();
    directory_cleaner_based_on_file_size(&records, 2000, true, &mut second, &vec![]);
    directory_cleaner_based_on_file_size(&records, 2000, true, &mut second, &vec![]);
    // The second run added exactly the same deltas again.
    assert_eq!(second.files_scanned, 2 * first.files_scanned);
    assert_eq!(second.files_deleted, 2 * first.files_deleted);
    assert_eq!(
        second.total_file_size_deleted,
        2 * first.total_file_size_deleted
    );
    assert_eq!(
        second.total_file_size_retained,
        2 * first.total_file_size_retained
    );
    assert_eq!(second.paths_deleted.len(), 2 * first.paths_deleted.len());
    assert_eq!(second.paths_retained.len(), 2 * first.paths_retained.len());
}

#[test]
fn combined_cleaner_needs_type_and_size_together() {
    let records = vec![
        record("tmp/big.txt", 5000),
        record("tmp/small.txt", 10),
        record("tmp/big.log", 5000),
    ];
    let to_remove = directory_cleaner(&records, &vec!["txt".to_string()], 1000);
    assert_eq!(to_remove, vec!["tmp/big.txt".to_string()]);
}

#[test]
fn files_outside_the_extension_set_are_counted_as_scanned() {
    let records = vec![record("tmp/a.txt", 100), record("tmp/b.log", 200)];
    let mut report = ReportData::new();
    directory_cleaner_based_on_file_type(
        &records,
        &vec!["txt".to_string()],
        false,
        &mut report,
        &vec![],
    );
    assert_eq!(report.files_scanned, 2);
    assert_eq!(report.files_deleted, 1);
    assert_eq!(report.total_files_retained, 1);
    assert_eq!(report.total_file_size_retained, 200);
}
