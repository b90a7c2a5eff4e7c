use cclean::expand::{expand_matches, split_wildcard};
use cclean::text::wide;
use cclean::guard::is_safe_to_clean;
use cclean::stats::{
    after_failed_remove, clean_start, walk_min_depth, walk_step, CleanStart, CleanStats, EntryKind, PathKind,
    RemoveStep,
};

fn no_env() -> Vec<String> {
    Vec::new()
}

#[test]
fn refuses_shallow_path() {
    // The guard stops a shallow path before anything is read or deleted.
    let safe = is_safe_to_clean("C:\\cclean_no_such_dir", &no_env());
    assert!(!safe);
    assert!(matches!(clean_start(safe, PathKind::Missing), CleanStart::Refuse));
    let st = CleanStats::refused();
    assert_eq!(st.freed, 0);
    assert!(st.errors > 0);
}

#[test]
fn guard_rejects_dangerous_paths() {
    let env = no_env();
    assert!(!is_safe_to_clean("C:\\Users\\A\\AppData\\Local\\Temp\\..\\..\\..\\..", &env));
    assert!(!is_safe_to_clean("C:\\Users", &env));
    assert!(!is_safe_to_clean("C:\\Windows\\", &env));
    assert!(!is_safe_to_clean("C:\\", &env));
    assert!(is_safe_to_clean("C:\\Windows\\Temp", &env));
    assert!(is_safe_to_clean("C:\\Users\\A\\AppData\\Local\\Temp", &env));
}

#[test]
fn missing_path_is_noop() {
    let path = "C:\\Users\\A\\AppData\\Local\\Temp\\cclean_test_missing";
    let safe = is_safe_to_clean(path, &no_env());
    assert!(safe);
    assert!(matches!(clean_start(safe, PathKind::Missing), CleanStart::Skip));
    let st = CleanStats::default();
    assert_eq!(st.freed, 0);
    assert_eq!(st.errors, 0);
}

#[test]
fn guard_protects_environment_dirs_in_any_spelling() {
    let env = vec!["C:\\Users\\Alice\\AppData\\Local".to_string(), "C:\\Program Files".to_string()];
    assert!(!is_safe_to_clean("c:\\users\\alice\\appdata\\local\\", &env));
    // Separators are compared as written: `/` is not the same as `\`.
    assert!(is_safe_to_clean("C:/Users/Alice/AppData/Local//", &env));
    assert!(!is_safe_to_clean("C:\\Users\\Alice\\AppData\\Local\\\\", &env));
    assert!(is_safe_to_clean("C:\\Users\\Alice\\AppData\\Local\\Temp", &env));
    // "C:\Program Files" is too shallow anyway.
    assert!(!is_safe_to_clean("C:\\Program Files", &env));
}

#[test]
fn guard_allows_subdirectories_of_protected_dirs() {
    let env = vec![
        "\\\\srv\\share\\Users\\Bob".to_string(),
        "\\\\?\\C:\\Data\\App".to_string(),
    ];
    assert!(!is_safe_to_clean("\\\\SRV\\Share\\users\\bob\\", &env));
    assert!(is_safe_to_clean("\\\\srv\\share\\Users\\Bob\\Temp", &env));
    assert!(!is_safe_to_clean("\\\\?\\c:\\data\\app", &env));
    assert!(is_safe_to_clean("\\\\?\\C:\\Data\\App\\Temp", &env));
}

#[test]
fn joined_subdirectories_pass_the_guard() {
    let env = no_env();
    let temp = vec!["Temp".to_string()];
    // Under a drive-rooted directory.
    let w = split_wildcard("C:\\Users\\Bob\\*").unwrap();
    let out = expand_matches(&w, &temp);
    assert_eq!(out, vec!["C:\\Users\\Bob\\Temp".to_string()]);
    assert!(is_safe_to_clean(&out[0], &env));
    // A verbatim share prefix without a share name: the rebuilt path reads
    // `a` as the share, and still has four components.
    assert!(is_safe_to_clean("\\\\?\\UNC\\srv\\\\a\\b", &env));
    let w = split_wildcard("\\\\?\\UNC\\srv\\\\a\\b\\*").unwrap();
    assert_eq!(w.base, "\\\\?\\UNC\\srv\\a\\b");
    let out = expand_matches(&w, &temp);
    assert_eq!(out, vec!["\\\\?\\UNC\\srv\\a\\b\\Temp".to_string()]);
    assert!(is_safe_to_clean(&out[0], &env));
    assert!(!is_safe_to_clean("\\\\?\\UNC\\srv\\a\\b", &env));
}

#[test]
fn guard_counts_components_the_windows_way() {
    let env = no_env();
    // Prefix, root and two names.
    assert!(is_safe_to_clean("D:\\a\\b", &env));
    // A drive-relative path has no root.
    assert!(!is_safe_to_clean("D:a\\b", &env));
    assert!(is_safe_to_clean("D:a\\b\\c", &env));
    // Empty names and `.` do not count.
    assert!(!is_safe_to_clean("C:\\\\.\\x\\", &env));
    // A share prefix carries its own root.
    assert!(is_safe_to_clean("\\\\server\\share\\a\\b", &env));
    assert!(!is_safe_to_clean("\\\\server\\share\\a", &env));
    // A leading `.` counts as a component.
    assert!(is_safe_to_clean(".\\a\\b\\c", &env));
    assert!(!is_safe_to_clean("a\\b\\c", &env));
    // `..` anywhere is refused, however deep.
    assert!(!is_safe_to_clean("C:\\a\\b\\..\\c\\d", &env));
    // The fixed list compares against lower case without trailing separators.
    assert!(is_safe_to_clean("C:\\Windows\\System32\\x", &env));
}

#[test]
fn clean_start_decisions() {
    assert!(matches!(clean_start(false, PathKind::File), CleanStart::Refuse));
    assert!(matches!(clean_start(true, PathKind::File), CleanStart::RemoveFile));
    assert!(matches!(clean_start(true, PathKind::Dir), CleanStart::Walk));
    assert!(matches!(clean_start(true, PathKind::Other), CleanStart::Skip));
}

#[test]
fn entry_accounting_and_merge() {
    let mut st = CleanStats::new();
    st.record_entry(EntryKind::File, 5, true);
    st.record_entry(EntryKind::File, 7, true);
    st.record_entry(EntryKind::File, 100, false);
    st.record_entry(EntryKind::Link, 0, true);
    st.record_entry(EntryKind::Link, 0, false);
    st.record_entry(EntryKind::Dir, 0, false);
    assert_eq!((st.freed, st.files, st.errors), (12, 3, 2));
    let mut total = CleanStats::refused();
    total.merge(st);
    assert_eq!((total.freed, total.files, total.errors), (12, 3, 3));
}

#[test]
fn guard_reads_verbatim_paths() {
    let env = no_env();
    // `\\?\UNC\a\b` is one prefix: prefix, root and `c` make three components.
    assert!(!is_safe_to_clean("\\\\?\\UNC\\a\\b\\c", &env));
    assert!(is_safe_to_clean("\\\\?\\UNC\\a\\b\\c\\d", &env));
    // The separator after `UNC` may be `/`: the prefix is still `\\?\UNC/a\b`.
    assert!(!is_safe_to_clean("\\\\?\\UNC/a\\b\\c", &env));
    assert!(is_safe_to_clean("\\\\?\\UNC/a\\b\\c\\d", &env));
    // Only `\` separates in a verbatim path: `a/b/c` is one name.
    assert!(!is_safe_to_clean("\\\\?\\C:\\a/b/c", &env));
    assert!(is_safe_to_clean("\\\\?\\C:\\a\\b", &env));
    // `.` is a component in a verbatim path, not in an ordinary one.
    assert!(is_safe_to_clean("\\\\?\\C:\\.\\a", &env));
    assert!(!is_safe_to_clean("C:\\.\\a", &env));
    // `\\?\C:a` is not a verbatim drive: the prefix is `\\?\C:a`, then the root.
    assert!(!is_safe_to_clean("\\\\?\\C:a\\b", &env));
    assert!(is_safe_to_clean("\\\\?\\C:a\\b\\c", &env));
    // A verbatim prefix has a root only when `\` follows it.
    assert!(!is_safe_to_clean("\\\\?\\x", &env));
    // `..` is refused in verbatim paths too.
    assert!(!is_safe_to_clean("\\\\?\\C:\\x\\..\\y\\z", &env));
}

#[test]
fn walk_and_retry_decisions() {
    assert!(matches!(walk_step(true, false), EntryKind::Dir));
    assert!(matches!(walk_step(true, true), EntryKind::Dir));
    assert!(matches!(walk_step(false, true), EntryKind::Link));
    assert!(matches!(walk_step(false, false), EntryKind::File));
    assert!(matches!(after_failed_remove(true), RemoveStep::ClearReadOnlyThenRetry));
    assert!(matches!(after_failed_remove(false), RemoveStep::FailWithFirstError));
    assert_eq!(walk_min_depth(true), 1);
    assert_eq!(walk_min_depth(false), 0);
}

#[test]
fn wide_strings_end_in_zero() {
    assert_eq!(wide("C:\\"), vec![67u16, 58, 92, 0]);
    assert_eq!(wide(""), vec![0u16]);
    assert_eq!(wide("\u{e9}\u{1F600}"), vec![0xE9u16, 0xD83D, 0xDE00, 0]);
}

#[test]
fn totals_over_paths() {
    let mut a = CleanStats::new();
    a.record_entry(EntryKind::File, 10, true);
    let b = CleanStats::refused();
    let mut c = CleanStats::new();
    c.record_entry(EntryKind::Link, 0, true);
    let st = CleanStats::sum_all(&vec![a, b, c]).unwrap();
    assert_eq!((st.freed, st.files, st.errors), (10, 2, 1));
    let st = CleanStats::sum_all(&vec![]).unwrap();
    assert_eq!((st.freed, st.files, st.errors), (0, 0, 0));
    let mut big = CleanStats::new();
    big.freed = u64::MAX;
    let mut one = CleanStats::new();
    one.freed = 1;
    assert!(CleanStats::sum_all(&vec![big, one]).is_none());
}
