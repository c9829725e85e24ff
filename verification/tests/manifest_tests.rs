use kushn::FileHash;
use kushn::IgnoreMatcher;
use kushn::WalkEntry;
use kushn::process_entries;
use kushn::render_manifest;
use kushn::with_self_entry;

fn sha256_hex(bytes: &[u8]) -> String {
    let digest = <sha2::Sha256 as sha2::Digest>::digest(bytes);
    digest.iter().map(|b| format!("{:02x}", b)).collect()
}

fn entry(path: &str, hash: &str) -> FileHash {
    FileHash { path: path.to_string(), hash: hash.to_string() }
}

#[test]
fn empty_manifest_renders_as_empty_array() {
    let entries: Vec<FileHash> = Vec::new();
    assert_eq!(render_manifest(&entries), "[]");
}

#[test]
fn manifest_layout_is_pretty_printed_with_stable_field_order() {
    let hash = sha256_hex(b"keep");
    let entries = vec![entry("keep.txt", &hash)];
    let expected = format!(
        "[\n  {{\n    \"path\": \"keep.txt\",\n    \"hash\": \"{}\"\n  }}\n]",
        hash
    );
    assert_eq!(render_manifest(&entries), expected);
}

#[test]
fn entries_are_separated_by_commas() {
    let entries = vec![entry("a.txt", "00"), entry("b.txt", "11")];
    let expected = "[\n  {\n    \"path\": \"a.txt\",\n    \"hash\": \"00\"\n  },\n  \
                    {\n    \"path\": \"b.txt\",\n    \"hash\": \"11\"\n  }\n]";
    assert_eq!(render_manifest(&entries), expected);
}

#[test]
fn rendered_manifest_is_valid_json_with_the_given_values() {
    let hash = sha256_hex(b"hello world");
    let entries = vec![entry("a.txt", &hash)];
    let rendered = render_manifest(&entries);
    let value: serde_json::Value = serde_json::from_str(&rendered).expect("valid JSON");
    let array = value.as_array().expect("array");
    assert_eq!(array.len(), 1);
    assert_eq!(array[0]["path"], serde_json::Value::String("a.txt".to_string()));
    assert_eq!(array[0]["hash"], serde_json::Value::String(hash));
}

#[test]
fn special_characters_in_paths_survive_a_json_round_trip() {
    let odd_path = "we\u{1}ird\\name \"quoted\"\n\ttabbed\u{c}caf\u{e9}.txt";
    let entries = vec![entry(odd_path, "00")];
    let rendered = render_manifest(&entries);
    let value: serde_json::Value = serde_json::from_str(&rendered).expect("valid JSON");
    assert_eq!(value[0]["path"].as_str().expect("string"), odd_path);
}

#[test]
fn control_characters_use_json_escapes() {
    let entries = vec![entry("a\"b\\c\nd\u{1}e", "00")];
    let rendered = render_manifest(&entries);
    assert!(rendered.contains("a\\\"b\\\\c\\nd\\u0001e"));
}

#[test]
fn self_entry_records_digest_of_first_pass_bytes() {
    let m = IgnoreMatcher::new(vec!["skip".to_string()]).expect("rules compile");
    let items = vec![
        WalkEntry { path: "keep.txt".to_string(), is_file: true, content: b"keep".to_vec() },
        WalkEntry { path: "skip".to_string(), is_file: false, content: Vec::new() },
        WalkEntry {
            path: "skip/ignored.txt".to_string(),
            is_file: true,
            content: b"ignored".to_vec(),
        },
    ];
    let mut entries = process_entries(&m, &items);

    // first pass: the manifest without its own record
    let first_pass = render_manifest(&entries);
    let expected_first = format!(
        "[\n  {{\n    \"path\": \"keep.txt\",\n    \"hash\": \"{}\"\n  }}\n]",
        sha256_hex(b"keep")
    );
    assert_eq!(first_pass, expected_first);

    // second pass: the self-entry is appended and the file rewritten
    with_self_entry(&mut entries, "kushn_result.json", first_pass.as_bytes());
    let final_pass = render_manifest(&entries);

    let value: serde_json::Value = serde_json::from_str(&final_pass).expect("valid JSON");
    let array = value.as_array().expect("array");
    assert_eq!(array.len(), 2);
    let last = array.last().expect("self entry");
    assert_eq!(last["path"].as_str().expect("string"), "kushn_result.json");
    assert_eq!(
        last["hash"].as_str().expect("string"),
        sha256_hex(first_pass.as_bytes())
    );
    // the non-self entries are unchanged
    assert_eq!(array[0]["path"].as_str().expect("string"), "keep.txt");
}
