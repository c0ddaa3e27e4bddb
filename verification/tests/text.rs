use dir_cleaner::cleaner_file_duplicate::get_file_key;
use dir_cleaner::digits::{parse_u64, u64_to_string};
use dir_cleaner::ignore::IgnoreSet;
use dir_cleaner::text::{
    extension_of, file_name_of, first_token, prefix_matches, split_on, str_eq,
};
use dir_cleaner::utils::{attempt_delete, GateOutcome};

#[test]
fn file_name_is_the_final_path_segment() {
    assert_eq!(file_name_of("a/b/c.txt"), "c.txt");
    assert_eq!(file_name_of("c.txt"), "c.txt");
    assert_eq!(file_name_of("a/b/"), "");
    assert_eq!(file_name_of(""), "");
}

#[test]
fn extension_follows_the_last_dot() {
    assert_eq!(extension_of("archive.tar.gz"), "gz");
    assert_eq!(extension_of("notes.txt"), "txt");
    assert_eq!(extension_of("noext"), "");
    assert_eq!(extension_of(".bashrc"), "");
    assert_eq!(extension_of(".config.yml"), "yml");
    assert_eq!(extension_of("trailing."), "");
}

#[test]
fn first_token_is_whitespace_delimited() {
    assert_eq!(first_token("test 1.txt"), "test");
    assert_eq!(first_token("  padded name"), "padded");
    assert_eq!(first_token("single"), "single");
    assert_eq!(first_token("   "), "");
    assert_eq!(first_token(""), "");
    assert_eq!(first_token("tab\tsplit"), "tab");
}

#[test]
fn split_on_keeps_empty_pieces() {
    let split = |s: &str| split_on(s, ' ');
    assert_eq!(split("a b"), vec!["a".to_string(), "b".to_string()]);
    assert_eq!(
        split("a  b"),
        vec!["a".to_string(), "".to_string(), "b".to_string()]
    );
    assert_eq!(split(""), vec!["".to_string()]);
    assert_eq!(split(" x"), vec!["".to_string(), "x".to_string()]);
}

#[test]
fn str_eq_compares_characters() {
    assert!(str_eq("abc", "abc"));
    assert!(!str_eq("abc", "abd"));
    assert!(!str_eq("abc", "ab"));
    assert!(str_eq("", ""));
}

#[test]
fn prefix_matching_respects_segment_boundaries() {
    assert!(prefix_matches("a/b", "a/b"));
    assert!(prefix_matches("a/b", "a/b/c.txt"));
    assert!(!prefix_matches("a/b", "a/bc"));
    assert!(prefix_matches("a/b/", "a/b/c.txt"));
    assert!(!prefix_matches("", "a/b"));
}

#[test]
fn duplicate_keys_pair_name_token_with_size() {
    let k = get_file_key("dir/test 1.txt", 4000);
    assert_eq!(k.token, "test");
    assert_eq!(k.size, 4000);
    let k2 = get_file_key("spaceless.txt", 10);
    assert_eq!(k2.token, "spaceless.txt");
}

#[test]
fn ignore_set_matches_names_and_prefixes() {
    let ignore = IgnoreSet::from_entries(&vec![
        "some/path/keep.txt".to_string(),
        "Files/books".to_string(),
    ]);
    // Name matching compares final segments, not whole paths.
    assert!(ignore.is_ignored_name("keep.txt"));
    assert!(!ignore.is_ignored_name("drop.txt"));
    assert!(ignore.is_ignored("elsewhere/keep.txt"));
    // Prefix matching shields the subtree.
    assert!(ignore.is_ignored_prefix("Files/books/volume1.txt"));
    assert!(!ignore.is_ignored_prefix("Files/booksmore/volume1.txt"));
    assert!(!ignore.is_ignored("Files/texts/volume1.txt"));
}

#[test]
fn gate_precedence_is_ignore_then_dry_run() {
    let ignore = IgnoreSet::from_entries(&vec!["keep.txt".to_string()]);
    assert_eq!(
        attempt_delete("tmp/keep.txt", false, &ignore),
        GateOutcome::SkippedIgnored
    );
    // Ignoring wins even over the dry-run flag.
    assert_eq!(
        attempt_delete("tmp/keep.txt", true, &ignore),
        GateOutcome::SkippedIgnored
    );
    assert_eq!(
        attempt_delete("tmp/drop.txt", true, &ignore),
        GateOutcome::SkippedDryRun
    );
    assert_eq!(
        attempt_delete("tmp/drop.txt", false, &ignore),
        GateOutcome::Deleted
    );
}

#[test]
fn parse_u64_reads_plain_decimals() {
    assert_eq!(parse_u64("0"), Some(0));
    assert_eq!(parse_u64("2048"), Some(2048));
    assert_eq!(parse_u64("+7"), Some(7));
    assert_eq!(parse_u64("18446744073709551615"), Some(u64::MAX));
    assert_eq!(parse_u64("18446744073709551616"), None);
    assert_eq!(parse_u64(""), None);
    assert_eq!(parse_u64("+"), None);
    assert_eq!(parse_u64("-1"), None);
    assert_eq!(parse_u64("12a"), None);
    assert_eq!(parse_u64("1 2"), None);
}

#[test]
fn u64_renders_in_base_ten() {
    assert_eq!(u64_to_string(0), "0");
    assert_eq!(u64_to_string(4000), "4000");
    assert_eq!(u64_to_string(u64::MAX), "18446744073709551615");
}
