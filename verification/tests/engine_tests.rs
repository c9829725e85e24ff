use kushn::IgnoreMatcher;
use kushn::WalkEntry;
use kushn::process_entries;
use kushn::process_file_content;
use kushn::file_entry;

fn sha256_hex(bytes: &[u8]) -> String {
    let digest = <sha2::Sha256 as sha2::Digest>::digest(bytes);
    digest.iter().map(|b| format!("{:02x}", b)).collect()
}

fn file(path: &str, content: &[u8]) -> WalkEntry {
    WalkEntry { path: path.to_string(), is_file: true, content: content.to_vec() }
}

fn dir(path: &str) -> WalkEntry {
    WalkEntry { path: path.to_string(), is_file: false, content: Vec::new() }
}

fn matcher(rules: &[&str]) -> IgnoreMatcher {
    let owned: Vec<String> = rules.iter().map(|r| r.to_string()).collect();
    IgnoreMatcher::new(owned).expect("rules should compile")
}

#[test]
fn process_file_respects_ignore_patterns() {
    let ignore = vec!["ignored.txt".to_string()];
    let result = process_file_content("ignored.txt", b"ignore me", &ignore)
        .expect("patterns should compile");
    assert!(result.is_none());
}

#[test]
fn process_file_returns_hash_for_included_file() {
    let ignore: Vec<String> = Vec::new();
    let result = process_file_content("include.txt", b"include me", &ignore)
        .expect("patterns should compile");
    let file_hash = result.expect("expected file hash entry");
    assert_eq!(file_hash.path, "include.txt");
    assert_eq!(file_hash.hash, sha256_hex(b"include me"));
}

#[test]
fn process_file_rejects_invalid_pattern() {
    let ignore = vec!["[".to_string()];
    assert!(process_file_content("a.txt", b"x", &ignore).is_err());
}

#[test]
fn process_directory_skips_ignored_entries() {
    let m = matcher(&["skip"]);
    let items = vec![
        file("keep.txt", b"keep"),
        dir("skip"),
        file("skip/ignored.txt", b"ignored"),
    ];
    let hashes = process_entries(&m, &items);
    let mut paths: Vec<String> = hashes.into_iter().map(|entry| entry.path).collect();
    paths.sort();
    assert_eq!(paths, vec![String::from("keep.txt")]);
}

#[test]
fn kept_file_is_listed_once_with_its_digest() {
    let m = matcher(&["skip"]);
    let items = vec![
        file("keep.txt", b"keep"),
        dir("skip"),
        file("skip/ignored.txt", b"ignored"),
    ];
    let hashes = process_entries(&m, &items);
    assert_eq!(hashes.len(), 1);
    assert_eq!(hashes[0].path, "keep.txt");
    assert_eq!(hashes[0].hash, sha256_hex(b"keep"));
}

#[test]
fn file_rule_excludes_root_and_nested_equally() {
    let m = matcher(&["*.log"]);
    let items = vec![
        file("app.log", b"log line"),
        dir("nested"),
        file("nested/debug.log", b"debug line"),
        file("nested/readme.md", b"text"),
    ];
    let hashes = process_entries(&m, &items);
    let paths: Vec<String> = hashes.into_iter().map(|entry| entry.path).collect();
    assert_eq!(paths, vec![String::from("nested/readme.md")]);
}

#[test]
fn entries_keep_walk_order() {
    let m = matcher(&[]);
    let items = vec![file("b.txt", b"b"), file("a.txt", b"a"), file("c/d.txt", b"d")];
    let hashes = process_entries(&m, &items);
    let paths: Vec<String> = hashes.into_iter().map(|entry| entry.path).collect();
    assert_eq!(paths, vec!["b.txt".to_string(), "a.txt".to_string(), "c/d.txt".to_string()]);
}

#[test]
fn processing_twice_gives_identical_entries() {
    let m = matcher(&["*.tmp", "build"]);
    let items = vec![
        file("src/main.c", b"int main;"),
        file("scratch.tmp", b"scratch"),
        dir("build"),
        file("build/out.o", b"obj"),
        file("docs/guide.md", b"guide"),
    ];
    let first = process_entries(&m, &items);
    let second = process_entries(&m, &items);
    assert_eq!(first.len(), second.len());
    for (a, b) in first.iter().zip(second.iter()) {
        assert_eq!(a.path, b.path);
        assert_eq!(a.hash, b.hash);
    }
}

#[test]
fn stored_paths_are_slash_normalized() {
    let entry = file_entry("dir\\file.txt", b"content");
    assert_eq!(entry.path, "dir/file.txt");
    assert_eq!(entry.hash, sha256_hex(b"content"));
}

#[test]
fn same_content_under_two_names_hashes_identically() {
    let m = matcher(&[]);
    let items = vec![file("one.txt", b"payload"), file("two.txt", b"payload")];
    let hashes = process_entries(&m, &items);
    assert_eq!(hashes.len(), 2);
    assert_eq!(hashes[0].hash, hashes[1].hash);
}
