//! The ignore matcher: raw ignore rules compiled into two glob pattern sets,
//! one that matches a directory (and everything beneath it), one that matches
//! a file anywhere in the tree.

use vstd::prelude::*;
use vstd::string::StringExecFns;
use crate::KushnError;
use crate::globs::IgnorePattern;
use crate::globs::glob_match;
use crate::globs::is_literal_glob;
use crate::globs::literal_dir_prefix;
use crate::globs::valid_glob;
use crate::text::normalize_separators;
use crate::text::seq_starts_with;
use crate::text::spec_normalize;

verus! {

/// The directory form of a rule: the rule followed by `/**`, matching every
/// path strictly inside the named directory.
pub open spec fn dir_form(rule: Seq<char>) -> Seq<char> {
    rule + seq!['/', '*', '*']
}

/// The file form of a rule: `**/` followed by the rule, matching the rule
/// anywhere in the tree.
pub open spec fn file_form(rule: Seq<char>) -> Seq<char> {
    seq!['*', '*', '/'] + rule
}

/// The raw rule strings as character sequences.
pub open spec fn rule_views(rules: Seq<String>) -> Seq<Seq<char>> {
    rules.map_values(|r: String| r@)
}

/// The directory form of `rule`, normalized, is a valid glob.
pub open spec fn dir_rule_ok(rule: Seq<char>) -> bool {
    valid_glob(dir_form(spec_normalize(rule)))
}

/// The file form of `rule`, normalized, is a valid glob.
pub open spec fn file_rule_ok(rule: Seq<char>) -> bool {
    valid_glob(file_form(spec_normalize(rule)))
}

/// Both compiled forms of `rule` are valid glob patterns.
pub open spec fn rule_ok(rule: Seq<char>) -> bool {
    dir_rule_ok(rule) && file_rule_ok(rule)
}

/// Every rule in the list compiles.
pub open spec fn all_rules_ok(rules: Seq<Seq<char>>) -> bool {
    forall|i: int| 0 <= i < rules.len() ==> rule_ok(#[trigger] rules[i])
}

/// Some directory-form rule matches `path`: the path names an excluded
/// directory's contents (or matches a directory rule directly).
pub open spec fn spec_excludes_dir(rules: Seq<Seq<char>>, path: Seq<char>) -> bool {
    exists|i: int|
        0 <= i < rules.len() && glob_match(dir_form(spec_normalize(#[trigger] rules[i])), path)
}

/// Some file-form rule matches `path` somewhere in the tree.
pub open spec fn spec_matches_file_rule(rules: Seq<Seq<char>>, path: Seq<char>) -> bool {
    exists|i: int|
        0 <= i < rules.len() && glob_match(file_form(spec_normalize(#[trigger] rules[i])), path)
}

/// A file at `path` is excluded: it lives inside an excluded directory, or a
/// file-form rule matches it.
pub open spec fn spec_excludes_file(rules: Seq<Seq<char>>, path: Seq<char>) -> bool {
    spec_excludes_dir(rules, path) || spec_matches_file_rule(rules, path)
}

/// No rule that names a directory literally (no wildcards) is a leading
/// directory of `path`.
pub open spec fn no_literal_dir_prefix(rules: Seq<Seq<char>>, path: Seq<char>) -> bool {
    forall|i: int|
        0 <= i < rules.len() && is_literal_glob(#[trigger] spec_normalize(rules[i]))
            ==> !seq_starts_with(path, spec_normalize(rules[i]) + seq!['/'])
}

/// A path that begins with a wildcard-free rule followed by `/` is matched by
/// that rule's directory form.
proof fn lemma_literal_dir_prefix_intro(rule: Seq<char>, path: Seq<char>)
    requires
        is_literal_glob(rule),
        seq_starts_with(path, rule + seq!['/']),
    ensures
        literal_dir_prefix(dir_form(rule), path),
{
    let pat = dir_form(rule);
    assert(pat.take(pat.len() - 3) =~= rule);
    assert(pat.take(pat.len() - 2) =~= rule + seq!['/']);
}

/// The directory form of a rule, as pattern text: the rule normalized, then
/// `/**` appended.
fn dir_pattern_text(rule: &str) -> (t: String)
    ensures
        t@ == dir_form(spec_normalize(rule@)),
{
    let mut t = normalize_separators(rule);
    t.append("/**");
    proof {
        reveal_strlit("/**");
        assert(t@ =~= dir_form(spec_normalize(rule@)));
    }
    t
}

/// The file form of a rule, as pattern text: `**/` followed by the rule
/// normalized.
fn file_pattern_text(rule: &str) -> (t: String)
    ensures
        t@ == file_form(spec_normalize(rule@)),
{
    let mut t = String::new();
    t.append("**/");
    let tail = normalize_separators(rule);
    t.append(tail.as_str());
    proof {
        reveal_strlit("**/");
        assert(t@ =~= file_form(spec_normalize(rule@)));
    }
    t
}

/// Compiles the file form of every rule, failing on the first rule whose
/// pattern is not a valid glob.
pub(crate) fn build_file_ignore_patterns(ignore: &Vec<String>) -> (r: Result<
    Vec<IgnorePattern>,
    KushnError,
>)
    ensures
        r is Ok <==> (forall|i: int|
            0 <= i < ignore@.len() ==> file_rule_ok(#[trigger] ignore@[i]@)),
        r matches Ok(v) ==> {
            &&& v@.len() == ignore@.len()
            &&& forall|i: int|
                0 <= i < ignore@.len() ==> (#[trigger] v@[i]).spec_raw() == file_form(
                    spec_normalize(ignore@[i]@),
                )
        },
{
    let mut patterns: Vec<IgnorePattern> = Vec::new();
    let n = ignore.len();
    for k in 0..n
        invariant
            n == ignore@.len(),
            patterns@.len() == k,
            forall|i: int|
                0 <= i < k ==> (#[trigger] patterns@[i]).spec_raw() == file_form(
                    spec_normalize(ignore@[i]@),
                ),
            forall|i: int|
                0 <= i < k ==> file_rule_ok(#[trigger] ignore@[i]@),
    {
        let text = file_pattern_text(ignore[k].as_str());
        match IgnorePattern::compile(text.as_str()) {
            Ok(p) => patterns.push(p),
            Err(e) => {
                return Err(KushnError::GlobPattern(e));
            },
        }
    }
    Ok(patterns)
}

/// Compiles the directory form of every rule, failing on the first rule whose
/// pattern is not a valid glob.
pub(crate) fn build_dir_ignore_patterns(ignore: &Vec<String>) -> (r: Result<
    Vec<IgnorePattern>,
    KushnError,
>)
    ensures
        r is Ok <==> (forall|i: int|
            0 <= i < ignore@.len() ==> dir_rule_ok(#[trigger] ignore@[i]@)),
        r matches Ok(v) ==> {
            &&& v@.len() == ignore@.len()
            &&& forall|i: int|
                0 <= i < ignore@.len() ==> (#[trigger] v@[i]).spec_raw() == dir_form(
                    spec_normalize(ignore@[i]@),
                )
        },
{
    let mut patterns: Vec<IgnorePattern> = Vec::new();
    let n = ignore.len();
    for k in 0..n
        invariant
            n == ignore@.len(),
            patterns@.len() == k,
            forall|i: int|
                0 <= i < k ==> (#[trigger] patterns@[i]).spec_raw() == dir_form(
                    spec_normalize(ignore@[i]@),
                ),
            forall|i: int|
                0 <= i < k ==> dir_rule_ok(#[trigger] ignore@[i]@),
    {
        let text = dir_pattern_text(ignore[k].as_str());
        match IgnorePattern::compile(text.as_str()) {
            Ok(p) => patterns.push(p),
            Err(e) => {
                return Err(KushnError::GlobPattern(e));
            },
        }
    }
    Ok(patterns)
}

/// Ignore rules compiled once per traversal: a directory-form and a file-form
/// pattern for every raw rule, immutable for the duration of the walk.
///
/// Its mathematical value is the sequence of raw rule strings.
pub struct IgnoreMatcher {
    rules: Vec<String>,
    dir_patterns: Vec<IgnorePattern>,
    file_patterns: Vec<IgnorePattern>,
}

impl View for IgnoreMatcher {
    type V = Seq<Seq<char>>;

    closed spec fn view(&self) -> Seq<Seq<char>> {
        rule_views(self.rules@)
    }
}

impl IgnoreMatcher {
    #[verifier::type_invariant]
    spec fn wf(&self) -> bool {
        &&& self.dir_patterns@.len() == self.rules@.len()
        &&& self.file_patterns@.len() == self.rules@.len()
        &&& forall|i: int|
            0 <= i < self.rules@.len() ==> (#[trigger] self.dir_patterns@[i]).spec_raw()
                == dir_form(spec_normalize(self.rules@[i]@))
        &&& forall|i: int|
            0 <= i < self.rules@.len() ==> (#[trigger] self.file_patterns@[i]).spec_raw()
                == file_form(spec_normalize(self.rules@[i]@))
    }

    /// Compiles the raw rule list. Succeeds exactly when every rule,
    /// normalized, yields a valid glob in both forms; fails fast with the
    /// first pattern error, before any traversal work is done.
    pub fn new(rules: Vec<String>) -> (r: Result<IgnoreMatcher, KushnError>)
        ensures
            r is Ok <==> all_rules_ok(rule_views(rules@)),
            r matches Ok(m) ==> m@ == rule_views(rules@),
    {
        let dir_patterns = match build_dir_ignore_patterns(&rules) {
            Ok(v) => v,
            Err(e) => {
                proof {
                    let i = choose|i: int| 0 <= i < rules@.len() && !dir_rule_ok(rules@[i]@);
                    assert(!rule_ok(rule_views(rules@)[i]));
                }
                return Err(e);
            },
        };
        let file_patterns = match build_file_ignore_patterns(&rules) {
            Ok(v) => v,
            Err(e) => {
                proof {
                    let i = choose|i: int| 0 <= i < rules@.len() && !file_rule_ok(rules@[i]@);
                    assert(!rule_ok(rule_views(rules@)[i]));
                }
                return Err(e);
            },
        };
        proof {
            assert forall|i: int| 0 <= i < rules@.len() implies rule_ok(
                #[trigger] rule_views(rules@)[i],
            ) by {
                assert(dir_rule_ok(rules@[i]@) && file_rule_ok(rules@[i]@));
            }
        }
        Ok(IgnoreMatcher { rules, dir_patterns, file_patterns })
    }

    /// Whether a directory at relative path `path` is excluded: some rule's
    /// directory form matches it. The engine must not descend into such a
    /// directory.
    ///
    /// When the answer is no, no wildcard-free rule is a leading directory
    /// of `path`.
    pub fn excludes_dir(&self, path: &str) -> (r: bool)
        ensures
            r == spec_excludes_dir(self@, path@),
            !r ==> no_literal_dir_prefix(self@, path@),
    {
        proof {
            use_type_invariant(&*self);
        }
        let n = self.dir_patterns.len();
        for k in 0..n
            invariant
                self.wf(),
                n == self.dir_patterns@.len(),
                forall|i: int|
                    0 <= i < k ==> !glob_match(
                        dir_form(spec_normalize(#[trigger] self@[i])),
                        path@,
                    ),
                forall|i: int|
                    0 <= i < k ==> !literal_dir_prefix(
                        dir_form(spec_normalize(#[trigger] self@[i])),
                        path@,
                    ),
        {
            if self.dir_patterns[k].is_match(path) {
                proof {
                    assert(glob_match(dir_form(spec_normalize(self@[k as int])), path@));
                }
                return true;
            }
        }
        proof {
            assert forall|i: int|
                0 <= i < self@.len() && is_literal_glob(#[trigger] spec_normalize(self@[i]))
                    implies !seq_starts_with(path@, spec_normalize(self@[i]) + seq!['/']) by {
                if seq_starts_with(path@, spec_normalize(self@[i]) + seq!['/']) {
                    lemma_literal_dir_prefix_intro(spec_normalize(self@[i]), path@);
                }
            }
        }
        false
    }

    /// Whether a regular file at relative path `path` is excluded: it lives
    /// inside an excluded directory, or some rule's file form matches it.
    ///
    /// When the answer is no, no wildcard-free rule is a leading directory
    /// of `path`.
    pub fn excludes_file(&self, path: &str) -> (r: bool)
        ensures
            r == spec_excludes_file(self@, path@),
            !r ==> no_literal_dir_prefix(self@, path@),
    {
        proof {
            use_type_invariant(&*self);
        }
        if self.excludes_dir(path) {
            return true;
        }
        let n = self.file_patterns.len();
        for k in 0..n
            invariant
                self.wf(),
                n == self.file_patterns@.len(),
                !spec_excludes_dir(self@, path@),
                no_literal_dir_prefix(self@, path@),
                forall|i: int|
                    0 <= i < k ==> !glob_match(
                        file_form(spec_normalize(#[trigger] self@[i])),
                        path@,
                    ),
        {
            if self.file_patterns[k].is_match(path) {
                proof {
                    assert(glob_match(file_form(spec_normalize(self@[k as int])), path@));
                }
                return true;
            }
        }
        false
    }
}

} // verus!
