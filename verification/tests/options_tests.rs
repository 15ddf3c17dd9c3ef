use paccat::options::{
    color_enabled, effective_binary, normalize_patterns, split_targets_files, take_stdin_marker,
    use_pager, validate_options, ColorWhen, UsageError,
};
use paccat::strutil::{basename, str_eq, strip_leading_slashes};

fn strings(v: &[&str]) -> Vec<String> {
    v.iter().map(|s| s.to_string()).collect()
}

#[test]
fn color_follows_the_flag_and_the_terminal() {
    assert!(color_enabled(ColorWhen::Auto, true));
    assert!(!color_enabled(ColorWhen::Auto, false));
    assert!(color_enabled(ColorWhen::Always, false));
    assert!(!color_enabled(ColorWhen::Never, true));
}

#[test]
fn binary_is_implied_off_terminal_and_by_extraction() {
    assert!(effective_binary(false, false, false, false));
    assert!(effective_binary(false, true, true, false));
    assert!(effective_binary(false, true, false, true));
    assert!(!effective_binary(false, true, false, false));
    assert!(effective_binary(true, true, false, false));
}

#[test]
fn pager_only_for_colored_content_printing() {
    assert!(use_pager(true, false, false, false, true));
    assert!(!use_pager(false, false, false, false, true));
    assert!(!use_pager(true, true, false, false, true));
    assert!(!use_pager(true, false, true, false, true));
    assert!(!use_pager(true, false, false, true, true));
    assert!(!use_pager(true, false, false, false, false));
}

#[test]
fn missing_targets_and_files_are_rejected() {
    assert_eq!(validate_options(0, false, false, 0, 5), Err(UsageError::NoTargets));
    assert_eq!(validate_options(0, false, false, 1, 0), Err(UsageError::NoFiles));
    assert_eq!(validate_options(1, false, false, 2, 0), Err(UsageError::NoFiles));
    assert_eq!(validate_options(0, true, false, 0, 1), Ok(()));
    assert_eq!(validate_options(0, false, false, 1, 1), Ok(()));
    // a bare refresh has nothing else to do and passes
    assert_eq!(validate_options(1, false, false, 0, 0), Ok(()));
}

#[test]
fn usage_errors_carry_their_messages() {
    assert_eq!(UsageError::NoTargets.message(), "no targets specified (use -h for help)");
    assert_eq!(UsageError::NoFiles.message(), "no files specified (use -h for help)");
}

#[test]
fn positional_arguments_split_into_target_and_files() {
    let mut targets = strings(&["coreutils", "ls", "cat"]);
    let mut files: Vec<String> = Vec::new();
    split_targets_files(&mut targets, &mut files, false, false);
    assert_eq!(targets, strings(&["coreutils"]));
    assert_eq!(files, strings(&["ls", "cat"]));
}

#[test]
fn database_scan_takes_every_argument_as_a_file() {
    let mut targets = strings(&["ls", "cat"]);
    let mut files: Vec<String> = Vec::new();
    split_targets_files(&mut targets, &mut files, true, false);
    assert!(targets.is_empty());
    assert_eq!(files, strings(&["ls", "cat"]));
}

#[test]
fn explicit_files_leave_the_targets_alone() {
    let mut targets = strings(&["coreutils"]);
    let mut files = strings(&["ls"]);
    split_targets_files(&mut targets, &mut files, false, false);
    assert_eq!(targets, strings(&["coreutils"]));
    assert_eq!(files, strings(&["ls"]));
}

#[test]
fn stdin_marker_is_removed_once() {
    let mut values = strings(&["x", "-", "y", "-"]);
    assert!(take_stdin_marker(&mut values));
    assert_eq!(values, strings(&["x", "y", "-"]));
}

#[test]
fn absent_stdin_marker_changes_nothing() {
    let mut values = strings(&["x", "y"]);
    assert!(!take_stdin_marker(&mut values));
    assert_eq!(values, strings(&["x", "y"]));
}

#[test]
fn patterns_lose_their_leading_slashes() {
    let out = normalize_patterns(&strings(&["/usr/bin/ls", "//x", "plain", "/"]));
    assert_eq!(out, strings(&["usr/bin/ls", "x", "plain", ""]));
}

#[test]
fn default_color_mode_is_auto() {
    assert!(matches!(ColorWhen::default(), ColorWhen::Auto));
}

#[test]
fn basename_takes_the_part_after_the_last_slash() {
    assert_eq!(basename("usr/share/foo/bar.txt"), "bar.txt");
    assert_eq!(basename("bar.txt"), "bar.txt");
    assert_eq!(basename("usr/share/"), "");
    assert_eq!(basename(""), "");
}

#[test]
fn str_eq_compares_by_characters() {
    assert!(str_eq("abc", "abc"));
    assert!(!str_eq("abc", "abd"));
    assert!(!str_eq("abc", "ab"));
    assert!(str_eq("", ""));
}

#[test]
fn strip_leading_slashes_only_strips_the_front() {
    assert_eq!(strip_leading_slashes("///a/b"), "a/b");
    assert_eq!(strip_leading_slashes("a/b/"), "a/b/");
    assert_eq!(strip_leading_slashes("////"), "");
}
