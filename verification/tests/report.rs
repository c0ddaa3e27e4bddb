use dir_cleaner::cleaner_file_size::directory_cleaner_based_on_file_size;
use dir_cleaner::record::FileRecord;
use dir_cleaner::report::{collect_metrics, dedup_paths, ReportData};

fn record(path: &str, size: u64) -> FileRecord {
    FileRecord {
        path: path.to_string(),
        size,
        modified: None,
    }
}

#[test]
fn test_directory_cleaner_should_show_correct_report_after_deleting_files_greater_than_the_specified_min_size(
) {
    let records = vec![record("tmp/test1.txt", 4000), record("tmp/test2.txt", 500)];
    let mut report = ReportData::new();
    let to_remove =
        directory_cleaner_based_on_file_size(&records, 2000, false, &mut report, &vec![]);
    assert!(
        to_remove.contains(&"tmp/test1.txt".to_string()),
        "File should be deleted as it's more than the minimum size"
    );
    assert!(
        !to_remove.contains(&"tmp/test2.txt".to_string()),
        "File should not be deleted as it's less than the minimum size"
    );
    assert!(report.files_deleted == 1);
    assert!(report.files_scanned == 2);
    assert!(report.total_files_retained == 1);
    assert!(report.total_file_size_retained == 500);
    assert!(report.total_file_size_deleted == 4000);
    assert!(report.paths_deleted.len() == 1);
    assert!(report.paths_retained.len() == 1);
}

#[test]
fn every_visit_lands_in_exactly_one_path_list() {
    let mut report = ReportData::new();
    collect_metrics(&mut report, 100, "tmp/kept.txt", false);
    collect_metrics(&mut report, 200, "tmp/gone.txt", true);
    assert_eq!(report.paths_retained, vec!["tmp/kept.txt".to_string()]);
    assert_eq!(report.paths_deleted, vec!["tmp/gone.txt".to_string()]);
    assert_eq!(
        report.files_scanned as usize,
        report.paths_deleted.len() + report.paths_retained.len()
    );
}

#[test]
fn size_totals_conserve_the_bytes_visited() {
    let mut report = ReportData::new();
    collect_metrics(&mut report, 111, "a", false);
    collect_metrics(&mut report, 222, "b", true);
    collect_metrics(&mut report, 333, "c", false);
    assert_eq!(
        report.total_file_size_deleted + report.total_file_size_retained,
        111 + 222 + 333
    );
    assert_eq!(report.total_file_size_deleted, 222);
}

#[test]
fn report_lines_render_the_counters() {
    let mut report = ReportData::new();
    collect_metrics(&mut report, 4000, "tmp/test1.txt", true);
    collect_metrics(&mut report, 500, "tmp/test2.txt", false);
    report.total_time_sec = 3;
    let lines = report.report_lines();
    assert_eq!(
        lines,
        vec![
            "Cleaning Report".to_string(),
            "".to_string(),
            "Files Scanned: 2".to_string(),
            "Files Deleted: 1".to_string(),
            "Files Retained: 1".to_string(),
            "Total Time (seconds): 3".to_string(),
            "Total File Size Deleted: 4000 bytes".to_string(),
            "Total File Size Retained: 500 bytes".to_string(),
            "Paths Deleted".to_string(),
            "tmp/test1.txt".to_string(),
            "Paths Retained".to_string(),
            "tmp/test2.txt".to_string(),
        ]
    );
}

#[test]
fn report_lines_omit_empty_path_lists() {
    let report = ReportData::new();
    let lines = report.report_lines();
    assert_eq!(lines.len(), 8);
    assert_eq!(lines[2], "Files Scanned: 0");
    assert_eq!(lines[6], "Total File Size Deleted: 0 bytes");
}

#[test]
fn retained_paths_are_shown_once_each() {
    let mut report = ReportData::new();
    collect_metrics(&mut report, 10, "tmp/same.txt", false);
    collect_metrics(&mut report, 10, "tmp/other.txt", false);
    collect_metrics(&mut report, 10, "tmp/same.txt", false);
    let lines = report.report_lines();
    let shown: Vec<&String> = lines
        .iter()
        .filter(|l| l.as_str() == "tmp/same.txt")
        .collect();
    assert_eq!(shown.len(), 1);
}

#[test]
fn dedup_keeps_first_occurrences_in_order() {
    let paths = vec![
        "b".to_string(),
        "a".to_string(),
        "b".to_string(),
        "c".to_string(),
        "a".to_string(),
    ];
    assert_eq!(
        dedup_paths(&paths),
        vec!["b".to_string(), "a".to_string(), "c".to_string()]
    );
}
