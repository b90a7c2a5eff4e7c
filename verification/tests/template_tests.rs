use cclean::expand::{expand_matches, split_wildcard};
use cclean::template::{substitute, template_vars};

#[test]
fn expand_missing_env_skips() {
    let t = "%NO_SUCH_VAR_CCLEAN%\\x";
    assert_eq!(template_vars(t), vec!["NO_SUCH_VAR_CCLEAN".to_string()]);
    assert_eq!(substitute(t, &vec![None]), None);
}

#[test]
fn substitution_fills_variables_in_order() {
    let t = "%A%\\x\\%B%";
    assert_eq!(template_vars(t), vec!["A".to_string(), "B".to_string()]);
    let vals = vec![Some("C:\\Users\\me".to_string()), Some("y".to_string())];
    assert_eq!(substitute(t, &vals), Some("C:\\Users\\me\\x\\y".to_string()));
    // A later unset variable also drops the template.
    assert_eq!(substitute(t, &vec![Some("v".to_string()), None]), None);
    assert_eq!(substitute(t, &vec![Some("v".to_string())]), None);
}

#[test]
fn unclosed_percent_is_kept() {
    assert!(template_vars("C:\\100%\\x").is_empty());
    assert_eq!(substitute("C:\\100%\\x", &vec![]), Some("C:\\100%\\x".to_string()));
    assert_eq!(substitute("plain", &vec![]), Some("plain".to_string()));
    assert_eq!(template_vars("%%"), vec!["".to_string()]);
}

#[test]
fn wildcard_split_and_match() {
    assert!(split_wildcard("C:\\Windows\\Temp").is_none());
    let w = split_wildcard("C:\\Users\\me\\AppData\\Roaming\\*\\Code Cache").unwrap();
    assert_eq!(w.base, "C:\\Users\\me\\AppData\\Roaming");
    assert_eq!(w.pattern, "*");
    assert_eq!(w.rest, vec!["Code Cache".to_string()]);
    let names = vec!["Code".to_string(), "Slack".to_string()];
    assert_eq!(
        expand_matches(&w, &names),
        vec![
            "C:\\Users\\me\\AppData\\Roaming\\Code\\Code Cache".to_string(),
            "C:\\Users\\me\\AppData\\Roaming\\Slack\\Code Cache".to_string(),
        ]
    );
}

#[test]
fn wildcard_in_last_component() {
    let w = split_wildcard("C:\\L\\Explorer\\thumbcache_*.db").unwrap();
    assert_eq!(w.base, "C:\\L\\Explorer");
    assert_eq!(w.pattern, "thumbcache_*.db");
    assert!(w.rest.is_empty());
    let names = vec![
        "thumbcache_32.db".to_string(),
        "iconcache_16.db".to_string(),
        "ThumbCache_idx.DB".to_string(),
    ];
    assert_eq!(
        expand_matches(&w, &names),
        vec!["C:\\L\\Explorer\\thumbcache_32.db".to_string(), "C:\\L\\Explorer\\ThumbCache_idx.DB".to_string()]
    );
}

#[test]
fn wildcard_base_forms() {
    // Right after the root: no doubled separator.
    let w = split_wildcard("C:\\*\\x").unwrap();
    assert_eq!(w.base, "C:\\");
    assert_eq!(expand_matches(&w, &vec!["a".to_string()]), vec!["C:\\a\\x".to_string()]);
    // Forward slashes are read as separators and written back as `\`.
    let w = split_wildcard("C:/a//b/*").unwrap();
    assert_eq!(w.base, "C:\\a\\b");
    // A bare drive joins without a separator.
    let w = split_wildcard("C:*").unwrap();
    assert_eq!(w.base, "C:");
    assert_eq!(w.pattern, "*");
    assert_eq!(expand_matches(&w, &vec!["a".to_string()]), vec!["C:a".to_string()]);
    // A `*` in the first component leaves no directory to list.
    let w = split_wildcard("*\\x").unwrap();
    assert_eq!(w.base, "");
    assert_eq!(w.pattern, "*");
    assert_eq!(w.rest, vec!["x".to_string()]);
}

#[test]
fn wildcard_in_verbatim_paths() {
    let w = split_wildcard("\\\\?\\C:\\a\\*\\b").unwrap();
    assert_eq!(w.base, "\\\\?\\C:\\a");
    assert_eq!(w.pattern, "*");
    assert_eq!(w.rest, vec!["b".to_string()]);
    assert_eq!(expand_matches(&w, &vec!["x".to_string()]), vec!["\\\\?\\C:\\a\\x\\b".to_string()]);
    // Rebuilding a verbatim path drops `.` and lets `..` remove a name.
    let w = split_wildcard("\\\\?\\C:\\a\\.\\..\\*").unwrap();
    assert_eq!(w.base, "\\\\?\\C:\\");
    // A `/` inside a verbatim name is rewritten as a separator when rebuilt.
    let w = split_wildcard("\\\\?\\C:\\a/b\\*").unwrap();
    assert_eq!(w.base, "\\\\?\\C:\\a\\b");
    // The whole `\\?\UNC\srv\sh` is the prefix.
    let w = split_wildcard("\\\\?\\UNC\\srv\\sh\\*").unwrap();
    assert_eq!(w.base, "\\\\?\\UNC\\srv\\sh\\");
    let w = split_wildcard("\\\\?\\UNC/srv\\sh\\*").unwrap();
    assert_eq!(w.base, "\\\\?\\UNC/srv\\sh\\");
}
