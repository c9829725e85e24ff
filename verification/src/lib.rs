//! A deterministic manifest generator: every regular file under a directory
//! root is listed with the lowercase hex SHA-256 digest of its bytes, after
//! glob-style ignore rules have excluded files and whole directory subtrees.
//! The manifest is written in two passes so that its final entry records the
//! digest of the manifest's own first-pass bytes.

use vstd::prelude::*;

pub mod digest;
pub mod engine;
pub mod globs;
pub mod manifest;
pub mod matcher;
pub mod text;

pub use digest::hash_bytes;
pub use digest::to_hex_lower;
pub use engine::WalkEntry;
pub use engine::file_entry;
pub use engine::matches_file_rules;
pub use engine::process_entries;
pub use engine::process_file_content;
pub use manifest::render_manifest;
pub use manifest::with_self_entry;
pub use matcher::IgnoreMatcher;
pub use text::normalize_separators;

verus! {

/// The failures this library itself can detect: an ignore rule that is not a
/// valid glob pattern. I/O and traversal failures belong to the callers that
/// perform the I/O.
#[derive(Debug)]
pub enum KushnError {
    GlobPattern(glob::PatternError),
}

/// One manifest entry: a slash-normalized path relative to the processed
/// root, and the lowercase hexadecimal SHA-256 digest of the file's bytes.
pub struct FileHash {
    pub path: String,
    pub hash: String,
}

/// The mathematical value of a [`FileHash`]: both fields as character
/// sequences.
pub ghost struct FileHashView {
    pub path: Seq<char>,
    pub hash: Seq<char>,
}

impl View for FileHash {
    type V = FileHashView;

    open spec fn view(&self) -> FileHashView {
        FileHashView { path: self.path@, hash: self.hash@ }
    }
}

/// The manifest entries as mathematical values.
pub open spec fn hash_views(entries: Seq<FileHash>) -> Seq<FileHashView> {
    entries.map_values(|e: FileHash| e@)
}

} // verus!
