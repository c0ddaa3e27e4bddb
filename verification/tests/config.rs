use dir_cleaner::arg::{build_args, rebuild_args_from_lines, Args};
use dir_cleaner::CleanError;

fn fresh_args() -> Args {
    Args {
        types: vec![],
        min_size: None,
        dir: String::new(),
        dry_run: false,
        remove_duplicates: false,
        age: None,
        files_to_ignore: vec![],
        config_file: None,
    }
}

#[test]
fn clear_resets_everything_but_the_config_file() {
    let mut args = Args {
        types: vec!["txt".to_string()],
        min_size: Some(10),
        dir: "somewhere".to_string(),
        dry_run: true,
        remove_duplicates: true,
        age: Some("2024-01-15".to_string()),
        files_to_ignore: vec!["a".to_string()],
        config_file: Some("cleanup.conf".to_string()),
    };
    args.clear();
    assert!(args.types.is_empty());
    assert_eq!(args.min_size, None);
    assert_eq!(args.dir, "");
    assert!(!args.dry_run);
    assert!(!args.remove_duplicates);
    assert_eq!(args.age, None);
    assert!(args.files_to_ignore.is_empty());
    assert_eq!(args.config_file, Some("cleanup.conf".to_string()));
}

#[test]
fn build_args_sets_each_field_from_its_flag() {
    let mut args = fresh_args();
    assert!(build_args(&mut args, &vec!["--dir", "/tmp/clean"]).is_ok());
    assert!(build_args(&mut args, &vec!["-s", "2048"]).is_ok());
    assert!(build_args(&mut args, &vec!["--dryrun"]).is_ok());
    assert!(build_args(&mut args, &vec!["-r"]).is_ok());
    assert!(build_args(&mut args, &vec!["--age", "2024-01-15"]).is_ok());
    assert!(build_args(&mut args, &vec!["-t", "txt", "log"]).is_ok());
    assert!(build_args(&mut args, &vec!["-i", "keep.txt", "docs"]).is_ok());
    assert_eq!(args.dir, "/tmp/clean");
    assert_eq!(args.min_size, Some(2048));
    assert!(args.dry_run);
    assert!(args.remove_duplicates);
    assert_eq!(args.age, Some("2024-01-15".to_string()));
    assert_eq!(args.types, vec!["txt".to_string(), "log".to_string()]);
    assert_eq!(
        args.files_to_ignore,
        vec!["keep.txt".to_string(), "docs".to_string()]
    );
}

#[test]
fn build_args_ignores_duplicate_flags() {
    let mut args = fresh_args();
    assert!(build_args(&mut args, &vec!["--dir", "first"]).is_ok());
    assert!(build_args(&mut args, &vec!["--dir", "second"]).is_ok());
    assert_eq!(args.dir, "first");
    assert!(build_args(&mut args, &vec!["--size", "10"]).is_ok());
    assert!(build_args(&mut args, &vec!["--size", "20"]).is_ok());
    assert_eq!(args.min_size, Some(10));
    assert!(build_args(&mut args, &vec!["--types", "txt"]).is_ok());
    assert!(build_args(&mut args, &vec!["--types", "log"]).is_ok());
    assert_eq!(args.types, vec!["txt".to_string()]);
}

#[test]
fn build_args_ignores_unknown_flags_and_missing_values() {
    let mut args = fresh_args();
    assert!(build_args(&mut args, &vec!["--frobnicate", "1"]).is_ok());
    assert!(build_args(&mut args, &vec!["--dir"]).is_ok());
    assert!(build_args(&mut args, &vec!["--size"]).is_ok());
    assert!(build_args(&mut args, &vec![]).is_ok());
    assert_eq!(args.dir, "");
    assert_eq!(args.min_size, None);
}

#[test]
fn build_args_rejects_a_malformed_size() {
    let mut args = fresh_args();
    assert_eq!(
        build_args(&mut args, &vec!["--size", "large"]),
        Err(CleanError::InvalidSizeValue)
    );
    assert_eq!(args.min_size, None);
    // Overflowing a 64-bit byte count is malformed too.
    assert_eq!(
        build_args(&mut args, &vec!["--size", "18446744073709551616"]),
        Err(CleanError::InvalidSizeValue)
    );
    // The largest representable count parses.
    assert!(build_args(&mut args, &vec!["--size", "18446744073709551615"]).is_ok());
    assert_eq!(args.min_size, Some(u64::MAX));
}

#[test]
fn rebuild_replaces_prior_state_with_the_file_lines() {
    let mut args = fresh_args();
    args.dir = "stale".to_string();
    args.min_size = Some(1);
    let lines = vec![
        "--dir /tmp/clean".to_string(),
        "--types txt log".to_string(),
        "--dryrun".to_string(),
    ];
    assert!(rebuild_args_from_lines(&mut args, &lines).is_ok());
    assert_eq!(args.dir, "/tmp/clean");
    assert_eq!(args.types, vec!["txt".to_string(), "log".to_string()]);
    assert!(args.dry_run);
    // The stale minimum size was cleared and never re-supplied.
    assert_eq!(args.min_size, None);
}

#[test]
fn rebuild_without_a_directory_is_fatal() {
    let mut args = fresh_args();
    let lines = vec!["--types txt".to_string()];
    assert_eq!(
        rebuild_args_from_lines(&mut args, &lines),
        Err(CleanError::MissingDirectory)
    );
}

#[test]
fn rebuild_stops_at_a_malformed_size_line() {
    let mut args = fresh_args();
    let lines = vec![
        "--dir /tmp/clean".to_string(),
        "--size oops".to_string(),
        "--dryrun".to_string(),
    ];
    assert_eq!(
        rebuild_args_from_lines(&mut args, &lines),
        Err(CleanError::InvalidSizeValue)
    );
    // Lines after the failing one were not applied.
    assert!(!args.dry_run);
    assert_eq!(args.dir, "/tmp/clean");
}
