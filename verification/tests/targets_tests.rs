use cclean::glob::glob_match;
use cclean::targets::{find, level_of, list_targets, targets, Action};

#[test]
fn glob() {
    assert!(glob_match("thumbcache_32.db", "thumbcache_*.db"));
    assert!(glob_match("ThumbCache_1024.DB", "thumbcache_*.db"));
    assert!(!glob_match("iconcache.db", "thumbcache_*.db"));
    assert!(glob_match("Default", "*"));
    assert!(glob_match("Cache", "Cache"));
}

#[test]
fn winsxs_always_shows_hibernate_conditional() {
    let all = targets();
    let winsxs = all.iter().find(|t| t.id == "winsxs").unwrap();
    // The component-store item has no size paths, so none of them exists.
    assert!(winsxs.is_relevant(false));
    // Ordinary items are always shown.
    assert!(all.iter().find(|t| t.id == "user-temp").unwrap().is_relevant(false));
}

#[test]
fn hibernate_and_old_windows_only_when_present() {
    let all = targets();
    for id in ["hibernate", "windows-old", "pagefile"] {
        let t = all.iter().find(|t| t.id == id).unwrap();
        assert!(!t.is_relevant(false));
        assert!(t.is_relevant(true));
    }
}

#[test]
fn glob_edge_cases() {
    // Prefix and suffix may not overlap.
    assert!(!glob_match("ab", "ab*b"));
    assert!(glob_match("abb", "ab*b"));
    assert!(glob_match("", "*"));
    assert!(!glob_match("a", ""));
    assert!(glob_match("ABC", "abc"));
    // A second `*` is an ordinary character.
    assert!(glob_match("a*b", "*a*b"));
    assert!(!glob_match("axb", "*a*b"));
    // Only ASCII letters are folded.
    assert!(!glob_match("É", "é"));
}

#[test]
fn glob_case_law_example() {
    assert_eq!(glob_match("FontCache", "font*"), glob_match("fontcache", "FONT*"));
    assert!(glob_match("FontCache", "font*"));
}

#[test]
fn catalogue_ids_are_distinct_and_ordered() {
    let all = targets();
    assert_eq!(all.len(), 19);
    let ids: Vec<&str> = all.iter().map(|t| t.id).collect();
    assert_eq!(ids[0], "recycle");
    assert_eq!(ids[18], "winsxs");
    for i in 0..ids.len() {
        for j in i + 1..ids.len() {
            assert_ne!(ids[i], ids[j]);
        }
    }
}

#[test]
fn advanced_items_are_system_items_off_by_default() {
    for t in targets() {
        let system = matches!(t.action, Action::System { .. } | Action::OpenSettings { .. });
        assert_eq!(t.advanced, system);
        if t.advanced {
            assert!(!t.default_on);
            assert_eq!(level_of(t.id), "caution");
        } else {
            assert!(t.is_relevant(false));
        }
    }
}

#[test]
fn levels() {
    assert_eq!(level_of("pkg-cache"), "redownload");
    assert_eq!(level_of("update-cache"), "caution");
    assert_eq!(level_of("pagefile"), "caution");
    assert_eq!(level_of("hibernate"), "caution");
    assert_eq!(level_of("windows-old"), "caution");
    assert_eq!(level_of("winsxs"), "caution");
    assert_eq!(level_of("user-temp"), "safe");
    assert_eq!(level_of("no-such-item"), "safe");
}

#[test]
fn find_known_and_unknown() {
    let t = find("win-temp").ok().unwrap();
    assert_eq!(t.id, "win-temp");
    assert_eq!(t.desc, "C:\\Windows\\Temp");
    match t.action {
        Action::Paths(p) => assert_eq!(p, vec!["%WINDIR%\\Temp"]),
        _ => panic!("win-temp deletes paths"),
    }
    let e = find("nope").err().unwrap();
    assert_eq!(e, "未知清理项: nope");
}

#[test]
fn list_depends_on_presence() {
    let none = list_targets(&vec![]);
    assert_eq!(none.len(), 16);
    assert!(none.iter().all(|i| i.id != "hibernate" && i.id != "pagefile"));
    assert!(none.iter().any(|i| i.id == "winsxs"));
    let all = list_targets(&vec![true; 19]);
    assert_eq!(all.len(), 19);
    let pagefile = all.iter().find(|i| i.id == "pagefile").unwrap();
    assert!(pagefile.opens_settings);
    assert!(!pagefile.expandable);
    assert_eq!(pagefile.level, "caution");
    let temp = all.iter().find(|i| i.id == "user-temp").unwrap();
    assert!(temp.expandable);
    assert!(!temp.opens_settings);
    assert_eq!(temp.level, "safe");
    assert!(temp.default_on);
    let pkg = all.iter().find(|i| i.id == "pkg-cache").unwrap();
    assert_eq!(pkg.level, "redownload");
    assert!(!pkg.default_on);
}
