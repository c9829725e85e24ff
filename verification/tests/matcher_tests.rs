use kushn::IgnoreMatcher;
use kushn::KushnError;
use kushn::normalize_separators;

fn matcher(rules: &[&str]) -> IgnoreMatcher {
    let owned: Vec<String> = rules.iter().map(|r| r.to_string()).collect();
    IgnoreMatcher::new(owned).expect("rules should compile")
}

#[test]
fn file_pattern_excludes_at_any_depth() {
    let m = matcher(&["*.log"]);
    assert!(m.excludes_file("app.log"));
    assert!(m.excludes_file("nested/debug.log"));
    assert!(!m.excludes_file("app.txt"));
    assert!(!m.excludes_file("nested/debug.txt"));
}

#[test]
fn matching_is_case_sensitive() {
    let m = matcher(&["*.LOG"]);
    assert!(!m.excludes_file("app.log"));
    assert!(m.excludes_file("app.LOG"));
}

#[test]
fn directory_rule_excludes_whole_subtree() {
    let m = matcher(&["skip"]);
    assert!(m.excludes_file("skip/ignored.txt"));
    assert!(m.excludes_file("skip/deep/nested.txt"));
    assert!(m.excludes_dir("skip/deep"));
    assert!(!m.excludes_file("keep.txt"));
    assert!(!m.excludes_file("skipx/file.txt"));
    assert!(!m.excludes_dir("other"));
}

#[test]
fn directory_rule_matches_contents_not_the_name_itself() {
    // `skip/**` matches what lies under `skip`, not the bare name; a
    // directory entry itself is pruned only through its parent rule, while
    // the bare file name is caught by the file form `**/skip`.
    let m = matcher(&["skip"]);
    assert!(!m.excludes_dir("skip"));
    assert!(m.excludes_file("skip"));
}

#[test]
fn literal_rule_characters_match_themselves() {
    // dots, closing brackets and spaces carry no glob meaning: such a rule
    // still excludes exactly its own subtree
    let m = matcher(&["a.b", "odd] name"]);
    assert!(m.excludes_file("a.b/file.txt"));
    assert!(m.excludes_file("odd] name/file.txt"));
    assert!(!m.excludes_file("axb/file.txt"));
}

#[test]
fn rules_with_backslashes_are_normalized() {
    let m = matcher(&["skip\\sub"]);
    assert!(m.excludes_file("skip/sub/file.txt"));
    assert!(m.excludes_dir("skip/sub/deeper"));
}

#[test]
fn invalid_pattern_is_reported_before_any_matching() {
    let owned = vec!["[".to_string()];
    let err = IgnoreMatcher::new(owned).err().expect("pattern should be rejected");
    assert!(matches!(err, KushnError::GlobPattern(_)));
}

#[test]
fn valid_rules_after_invalid_one_do_not_rescue_it() {
    let owned = vec!["ok".to_string(), "a***".to_string()];
    assert!(IgnoreMatcher::new(owned).is_err());
}

#[test]
fn separator_normalization_replaces_every_backslash() {
    assert_eq!(normalize_separators("a\\b\\c.txt"), "a/b/c.txt");
    assert_eq!(normalize_separators("plain/path.txt"), "plain/path.txt");
    assert_eq!(normalize_separators(""), "");
}
