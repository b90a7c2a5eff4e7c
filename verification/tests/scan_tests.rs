use cclean::outcome::{
    free_bytes, needs_emptying, recycle_outcome, require_admin, select_paths, settings_outcome,
    system_outcome, CleanResult,
};
use cclean::scan::{scan_entries, size_of_kind, total_size, Entry};
use cclean::stats::CleanStats;

fn entry(p: &str, size: u64) -> Entry {
    Entry { path: p.to_string(), size }
}

#[test]
fn scan_sorts_largest_first_and_drops_empty() {
    let found = vec![entry("a", 5), entry("b", 0), entry("c", 9), entry("d", 5), entry("e", 1)];
    let r = scan_entries(found).unwrap();
    let got: Vec<(String, u64)> = r.entries.iter().map(|e| (e.path.clone(), e.size)).collect();
    assert_eq!(
        got,
        vec![("c".to_string(), 9), ("a".to_string(), 5), ("d".to_string(), 5), ("e".to_string(), 1)]
    );
    assert_eq!(r.total, 20);
}

#[test]
fn scan_of_nothing() {
    let r = scan_entries(vec![entry("x", 0)]).unwrap();
    assert!(r.entries.is_empty());
    assert_eq!(r.total, 0);
}

#[test]
fn scan_total_overflow() {
    assert!(scan_entries(vec![entry("a", u64::MAX), entry("b", 1)]).is_none());
    assert_eq!(total_size(&vec![u64::MAX, 1]), None);
    assert_eq!(total_size(&vec![1, 2, 3]), Some(6));
    assert_eq!(total_size(&vec![]), Some(0));
}

#[test]
fn sizes_by_kind() {
    assert_eq!(size_of_kind(true, false, 42, &vec![1, 2]), Some(42));
    assert_eq!(size_of_kind(false, true, 4096, &vec![1, 2]), Some(3));
    assert_eq!(size_of_kind(false, false, 10, &vec![1]), Some(0));
}

#[test]
fn recycle_outcomes() {
    assert!(needs_emptying(Some((10, 2))));
    assert!(!needs_emptying(Some((0, 0))));
    assert!(!needs_emptying(None));
    let r = recycle_outcome(Some((10, 2)), true);
    assert_eq!((r.freed, r.files, r.errors), (10, 2, 0));
    let r = recycle_outcome(Some((10, 2)), false);
    assert_eq!((r.freed, r.files, r.errors), (0, 0, 1));
    let r = recycle_outcome(Some((10, 0)), true);
    assert_eq!((r.freed, r.files, r.errors), (0, 0, 0));
    let r = recycle_outcome(None, false);
    assert_eq!((r.freed, r.files, r.errors), (0, 0, 0));
}

#[test]
fn system_and_settings_outcomes() {
    let r = system_outcome(100, 250, false);
    assert_eq!((r.freed, r.files, r.errors), (150, 0, 0));
    let r = system_outcome(250, 100, true);
    assert_eq!((r.freed, r.files, r.errors), (0, 0, 1));
    let r = settings_outcome(true);
    assert_eq!((r.freed, r.files, r.errors), (0, 0, 0));
    let r = settings_outcome(false);
    assert_eq!(r.errors, 1);
    assert!(require_admin(true).is_ok());
    assert_eq!(require_admin(false).err().unwrap(), "需要管理员权限，请以管理员身份运行");
}

#[test]
fn free_space() {
    assert_eq!(free_bytes(Some((100, 40))), 40);
    assert_eq!(free_bytes(None), 0);
}

#[test]
fn selection_stays_within_item() {
    let all = vec!["C:\\a".to_string(), "C:\\b".to_string(), "C:\\c".to_string()];
    let req = vec!["C:\\c".to_string(), "C:\\evil".to_string(), "C:\\a".to_string()];
    assert_eq!(select_paths(all.clone(), Some(&req)), vec!["C:\\a".to_string(), "C:\\c".to_string()]);
    assert_eq!(select_paths(all.clone(), None), all);
    assert!(select_paths(all, Some(&vec![])).is_empty());
}

#[test]
fn result_from_stats() {
    let mut st = CleanStats::new();
    st.freed = 3;
    st.files = 2;
    st.errors = 1;
    let r: CleanResult = CleanResult::from_stats(st);
    assert_eq!((r.freed, r.files, r.errors), (3, 2, 1));
}
