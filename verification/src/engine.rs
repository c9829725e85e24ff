//! The traversal engine's decision core: which walked entries survive the
//! ignore rules, and the manifest entry each survivor yields. The walk itself
//! (directory I/O) stays with the caller, which hands every reached entry in
//! here as a relative path, a file flag and the file's bytes.

use vstd::prelude::*;
use crate::FileHash;
use crate::FileHashView;
use crate::KushnError;
use crate::digest::hash_bytes;
use crate::digest::sha256_hex_of;
use crate::globs::glob_match;
use crate::matcher::IgnoreMatcher;
use crate::matcher::build_file_ignore_patterns;
use crate::matcher::dir_form;
use crate::matcher::file_form;
use crate::matcher::file_rule_ok;
use crate::matcher::no_literal_dir_prefix;
use crate::matcher::rule_views;
use crate::matcher::spec_excludes_file;
use crate::matcher::spec_matches_file_rule;
use crate::text::no_backslash;
use crate::text::normalize_separators;
use crate::text::spec_normalize;

verus! {

/// One entry reached by a directory walk: its path relative to the processed
/// root (in whatever separator style the walk produced), whether it is a
/// regular file, and, for a regular file, its bytes.
pub struct WalkEntry {
    pub path: String,
    pub is_file: bool,
    pub content: Vec<u8>,
}

/// The mathematical value of a [`WalkEntry`].
pub ghost struct WalkEntryView {
    pub path: Seq<char>,
    pub is_file: bool,
    pub content: Seq<u8>,
}

impl View for WalkEntry {
    type V = WalkEntryView;

    open spec fn view(&self) -> WalkEntryView {
        WalkEntryView { path: self.path@, is_file: self.is_file, content: self.content@ }
    }
}

/// The walked entries as mathematical values.
pub open spec fn entry_views(items: Seq<WalkEntry>) -> Seq<WalkEntryView> {
    items.map_values(|w: WalkEntry| w@)
}

/// A walked entry belongs in the manifest: it is a regular file and no
/// ignore rule excludes it.
pub open spec fn spec_keep(rules: Seq<Seq<char>>, e: WalkEntryView) -> bool {
    e.is_file && !spec_excludes_file(rules, e.path)
}

/// The manifest entry a surviving file yields: its path slash-normalized,
/// its content hashed.
pub open spec fn spec_entry(e: WalkEntryView) -> FileHashView {
    FileHashView { path: spec_normalize(e.path), hash: sha256_hex_of(e.content) }
}

/// The manifest the engine produces from the walked entries, in walk order:
/// one entry per surviving regular file.
pub open spec fn spec_process(rules: Seq<Seq<char>>, items: Seq<WalkEntryView>) -> Seq<
    FileHashView,
>
    decreases items.len(),
{
    if items.len() == 0 {
        Seq::empty()
    } else {
        let prefix = spec_process(rules, items.drop_last());
        if spec_keep(rules, items.last()) {
            prefix.push(spec_entry(items.last()))
        } else {
            prefix
        }
    }
}

/// Builds the manifest entry for a surviving regular file: the stored path is
/// the relative path with separators normalized to forward slashes, the hash
/// is the SHA-256 digest of the bytes in lowercase hex.
pub fn file_entry(rel_path: &str, content: &[u8]) -> (r: FileHash)
    ensures
        r@ == spec_entry(
            WalkEntryView { path: rel_path@, is_file: true, content: content@ },
        ),
{
    FileHash { path: normalize_separators(rel_path), hash: hash_bytes(content) }
}

/// Applies the ignore rules to every walked entry and hashes the survivors,
/// in walk order.
///
/// Besides producing exactly [`spec_process`], this promises the directory
/// rule guarantee: as long as the walked paths themselves contain no
/// backslash, no produced path begins with a wildcard-free ignore rule
/// followed by `/`.
pub fn process_entries(matcher: &IgnoreMatcher, items: &Vec<WalkEntry>) -> (out: Vec<FileHash>)
    ensures
        crate::hash_views(out@) == spec_process(matcher@, entry_views(items@)),
        (forall|j: int| 0 <= j < items@.len() ==> no_backslash(#[trigger] items@[j]@.path))
            ==> (forall|k: int|
            0 <= k < out@.len() ==> no_literal_dir_prefix(matcher@, #[trigger] out@[k]@.path)),
{
    let mut out: Vec<FileHash> = Vec::new();
    let n = items.len();
    for idx in 0..n
        invariant
            n == items@.len(),
            crate::hash_views(out@) == spec_process(
                matcher@,
                entry_views(items@).take(idx as int),
            ),
            (forall|j: int| 0 <= j < items@.len() ==> no_backslash(#[trigger] items@[j]@.path))
                ==> (forall|k: int|
                0 <= k < out@.len() ==> no_literal_dir_prefix(
                    matcher@,
                    #[trigger] out@[k]@.path,
                )),
    {
        let ghost prev = out@;
        let ghost taken = entry_views(items@).take(idx as int);
        let it = &items[idx];
        if it.is_file && !matcher.excludes_file(it.path.as_str()) {
            let fh = file_entry(it.path.as_str(), it.content.as_slice());
            proof {
                if no_backslash(it@.path) {
                    crate::text::lemma_normalize_identity(it@.path);
                }
            }
            out.push(fh);
        }
        proof {
            assert(entry_views(items@).take(idx + 1).drop_last() =~= taken);
            assert(entry_views(items@).take(idx + 1).last() == items@[idx as int]@);
            assert(crate::hash_views(out@) =~= if spec_keep(matcher@, items@[idx as int]@) {
                crate::hash_views(prev).push(spec_entry(items@[idx as int]@))
            } else {
                crate::hash_views(prev)
            });
        }
    }
    proof {
        assert(entry_views(items@).take(n as int) =~= entry_views(items@));
    }
    out
}

/// Decides, from the raw ignore list alone, whether some rule's file form
/// matches `rel_path`. This is the check a caller must make before reading a
/// file's bytes: an ignored file is never opened.
pub fn matches_file_rules(rel_path: &str, ignore: &Vec<String>) -> (r: Result<bool, KushnError>)
    ensures
        r is Ok <==> (forall|i: int|
            0 <= i < ignore@.len() ==> file_rule_ok(#[trigger] ignore@[i]@)),
        r matches Ok(b) ==> b == spec_matches_file_rule(rule_views(ignore@), rel_path@),
{
    let patterns = match build_file_ignore_patterns(ignore) {
        Ok(v) => v,
        Err(e) => {
            return Err(e);
        },
    };
    let n = patterns.len();
    for k in 0..n
        invariant
            n == patterns@.len(),
            patterns@.len() == ignore@.len(),
            forall|i: int|
                0 <= i < ignore@.len() ==> (#[trigger] patterns@[i]).spec_raw() == file_form(
                    spec_normalize(ignore@[i]@),
                ),
            forall|i: int|
                0 <= i < ignore@.len() ==> file_rule_ok(#[trigger] ignore@[i]@),
            forall|i: int|
                0 <= i < k ==> !glob_match(
                    file_form(spec_normalize(#[trigger] ignore@[i]@)),
                    rel_path@,
                ),
    {
        if patterns[k].is_match(rel_path) {
            proof {
                assert(glob_match(
                    file_form(spec_normalize(rule_views(ignore@)[k as int])),
                    rel_path@,
                ));
            }
            return Ok(true);
        }
    }
    proof {
        assert forall|i: int| 0 <= i < rule_views(ignore@).len() implies !glob_match(
            file_form(spec_normalize(#[trigger] rule_views(ignore@)[i])),
            rel_path@,
        ) by {
            assert(rule_views(ignore@)[i] == ignore@[i]@);
        }
    }
    Ok(false)
}

/// Processes one file against the raw ignore list alone, as a caller with a
/// single file in hand would: the rules are compiled in their file form, and
/// the file is hashed only when no rule matches its relative path. The stored
/// path is the relative path exactly as given.
pub fn process_file_content(rel_path: &str, content: &[u8], ignore: &Vec<String>) -> (r: Result<
    Option<FileHash>,
    KushnError,
>)
    ensures
        r is Ok <==> (forall|i: int|
            0 <= i < ignore@.len() ==> file_rule_ok(#[trigger] ignore@[i]@)),
        r matches Ok(opt) ==> ((opt is None) <==> spec_matches_file_rule(
            rule_views(ignore@),
            rel_path@,
        )),
        r matches Ok(Some(fh)) ==> fh.path@ == rel_path@ && fh.hash@ == sha256_hex_of(content@),
{
    match matches_file_rules(rel_path, ignore) {
        Ok(true) => Ok(None),
        Ok(false) => Ok(Some(FileHash { path: rel_path.to_owned(), hash: hash_bytes(content) })),
        Err(e) => Err(e),
    }
}

/// The walked entries' normalized paths are pairwise distinct, as the
/// relative paths of a single directory tree are.
pub open spec fn distinct_normalized_paths(items: Seq<WalkEntryView>) -> bool {
    forall|a: int, b: int|
        0 <= a < items.len() && 0 <= b < items.len() && a != b ==> spec_normalize(
            #[trigger] items[a].path,
        ) != spec_normalize(#[trigger] items[b].path)
}

/// Every produced manifest entry comes from some kept walked entry.
pub proof fn lemma_entry_source(rules: Seq<Seq<char>>, items: Seq<WalkEntryView>, k: int)
    requires
        0 <= k < spec_process(rules, items).len(),
    ensures
        exists|j: int|
            0 <= j < items.len() && spec_keep(rules, #[trigger] items[j]) && spec_process(
                rules,
                items,
            )[k] == spec_entry(items[j]),
    decreases items.len(),
{
    let out = spec_process(rules, items);
    let rest = items.drop_last();
    let prefix = spec_process(rules, rest);
    if spec_keep(rules, items.last()) && k == prefix.len() {
        let j = items.len() - 1;
        assert(items[j] == items.last());
        assert(spec_keep(rules, items[j]) && out[k] == spec_entry(items[j]));
    } else {
        lemma_entry_source(rules, rest, k);
        let j = choose|j: int|
            0 <= j < rest.len() && spec_keep(rules, #[trigger] rest[j]) && prefix[k] == spec_entry(
                rest[j],
            );
        assert(rest[j] == items[j]);
        assert(spec_keep(rules, items[j]) && out[k] == spec_entry(items[j]));
    }
}

/// Completeness: every walked regular file that no ignore rule excludes is
/// listed, under its normalized path, with the digest of its bytes.
pub proof fn lemma_manifest_contains(rules: Seq<Seq<char>>, items: Seq<WalkEntryView>, j: int)
    requires
        0 <= j < items.len(),
        spec_keep(rules, items[j]),
    ensures
        exists|k: int|
            0 <= k < spec_process(rules, items).len() && spec_process(rules, items)[k]
                == spec_entry(items[j]),
    decreases items.len(),
{
    let out = spec_process(rules, items);
    let rest = items.drop_last();
    let prefix = spec_process(rules, rest);
    if j == items.len() - 1 {
        assert(items[j] == items.last());
        assert(out[prefix.len() as int] == spec_entry(items[j]));
    } else {
        assert(rest[j] == items[j]);
        lemma_manifest_contains(rules, rest, j);
        let k = choose|k: int|
            0 <= k < prefix.len() && prefix[k] == spec_entry(rest[j]);
        assert(out[k] == spec_entry(items[j]));
    }
}

/// Uniqueness: with pairwise distinct normalized input paths, no path
/// appears twice in the produced manifest. Together with
/// [`lemma_manifest_contains`] this makes the entry of a surviving file the
/// only one under its path.
pub proof fn lemma_manifest_paths_distinct(
    rules: Seq<Seq<char>>,
    items: Seq<WalkEntryView>,
    k1: int,
    k2: int,
)
    requires
        distinct_normalized_paths(items),
        0 <= k1 < k2 < spec_process(rules, items).len(),
    ensures
        spec_process(rules, items)[k1].path != spec_process(rules, items)[k2].path,
    decreases items.len(),
{
    let out = spec_process(rules, items);
    let rest = items.drop_last();
    let prefix = spec_process(rules, rest);
    assert forall|a: int, b: int|
        0 <= a < rest.len() && 0 <= b < rest.len() && a != b implies spec_normalize(
        #[trigger] rest[a].path,
    ) != spec_normalize(#[trigger] rest[b].path) by {
        assert(rest[a] == items[a] && rest[b] == items[b]);
    }
    if spec_keep(rules, items.last()) && k2 == prefix.len() {
        lemma_entry_source(rules, rest, k1);
        let j = choose|j: int|
            0 <= j < rest.len() && spec_keep(rules, #[trigger] rest[j]) && prefix[k1]
                == spec_entry(rest[j]);
        assert(rest[j] == items[j]);
        assert(spec_normalize(items[j].path) != spec_normalize(items[items.len() - 1].path));
        assert(out[k2] == spec_entry(items.last()));
        assert(out[k1] == prefix[k1]);
    } else {
        lemma_manifest_paths_distinct(rules, rest, k1, k2);
        assert(out[k1] == prefix[k1] && out[k2] == prefix[k2]);
    }
}

/// Every surviving file has exactly one manifest entry: the walked regular
/// file `items[j]`, excluded by no rule, is listed with its normalized path
/// and its content's digest, and no other entry carries that path.
pub proof fn lemma_manifest_exactly_one(rules: Seq<Seq<char>>, items: Seq<WalkEntryView>, j: int)
    requires
        0 <= j < items.len(),
        spec_keep(rules, items[j]),
        distinct_normalized_paths(items),
    ensures
        exists|k: int|
            0 <= k < spec_process(rules, items).len() && spec_process(rules, items)[k]
                == spec_entry(items[j]),
        forall|k1: int, k2: int|
            0 <= k1 < spec_process(rules, items).len() && 0 <= k2 < spec_process(
                rules,
                items,
            ).len() && spec_process(rules, items)[k1].path == spec_normalize(items[j].path)
                && spec_process(rules, items)[k2].path == spec_normalize(items[j].path) ==> k1
                == k2,
{
    lemma_manifest_contains(rules, items, j);
    let out = spec_process(rules, items);
    assert forall|k1: int, k2: int|
        0 <= k1 < out.len() && 0 <= k2 < out.len() && out[k1].path == spec_normalize(
            items[j].path,
        ) && out[k2].path == spec_normalize(items[j].path) implies k1 == k2 by {
        if k1 < k2 {
            lemma_manifest_paths_distinct(rules, items, k1, k2);
        } else if k2 < k1 {
            lemma_manifest_paths_distinct(rules, items, k2, k1);
        }
    }
}

/// No ignored file is listed: on walked paths free of backslashes, no
/// produced path is matched by any rule's file form, nor by any rule's
/// directory form.
pub proof fn lemma_ignored_not_listed(
    rules: Seq<Seq<char>>,
    items: Seq<WalkEntryView>,
    k: int,
    i: int,
)
    requires
        0 <= k < spec_process(rules, items).len(),
        0 <= i < rules.len(),
        forall|j: int| 0 <= j < items.len() ==> no_backslash(#[trigger] items[j].path),
    ensures
        !glob_match(file_form(spec_normalize(rules[i])), spec_process(rules, items)[k].path),
        !glob_match(dir_form(spec_normalize(rules[i])), spec_process(rules, items)[k].path),
{
    lemma_entry_source(rules, items, k);
    let j = choose|j: int|
        0 <= j < items.len() && spec_keep(rules, #[trigger] items[j]) && spec_process(
            rules,
            items,
        )[k] == spec_entry(items[j]);
    crate::text::lemma_normalize_identity(items[j].path);
    assert(spec_process(rules, items)[k].path == items[j].path);
    assert(!glob_match(file_form(spec_normalize(rules[i])), items[j].path));
    assert(!glob_match(dir_form(spec_normalize(rules[i])), items[j].path));
}

/// Determinism: two runs over the same walked entries with the same ignore
/// rules produce the same manifest entries.
pub proof fn lemma_deterministic(
    rules1: Seq<Seq<char>>,
    rules2: Seq<Seq<char>>,
    items1: Seq<WalkEntryView>,
    items2: Seq<WalkEntryView>,
)
    requires
        rules1 == rules2,
        items1 == items2,
    ensures
        spec_process(rules1, items1) == spec_process(rules2, items2),
{
}

} // verus!
