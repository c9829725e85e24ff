//! The boundary to the `glob` crate: compiled patterns and the two spec-level
//! names, `valid_glob` and `glob_match`, that every contract about ignore
//! rules is stated with.

use vstd::prelude::*;
use crate::text::seq_starts_with;

verus! {

#[verifier::external_type_specification]
#[verifier::external_body]
pub struct ExPattern(glob::Pattern);

#[verifier::external_type_specification]
#[verifier::external_body]
pub struct ExPatternError(glob::PatternError);

/// Whether `glob::Pattern::new` accepts `pattern`. Validity is a function of
/// the pattern text alone.
pub uninterp spec fn valid_glob(pattern: Seq<char>) -> bool;

/// Whether the pattern compiled from `pattern` matches `path` under the
/// default match options (case-sensitive, separators not required to be
/// literal). A function of the two strings alone.
pub uninterp spec fn glob_match(pattern: Seq<char>, path: Seq<char>) -> bool;

/// The characters that can open a wildcard in a glob pattern: everything
/// else stands for itself.
pub open spec fn is_glob_meta(c: char) -> bool {
    c == '*' || c == '?' || c == '['
}

/// `s` contains no wildcard at all, so as a pattern it matches exactly
/// itself.
pub open spec fn is_literal_glob(s: Seq<char>) -> bool {
    forall|i: int| 0 <= i < s.len() ==> !is_glob_meta(s[i])
}

/// `pat` has the shape `prefix + "/**"` with a wildcard-free prefix, and
/// `path` begins with `prefix + "/"`: the one corner of glob semantics this
/// crate relies on by name (see [`IgnorePattern::is_match`]).
pub open spec fn literal_dir_prefix(pat: Seq<char>, path: Seq<char>) -> bool {
    &&& pat.len() >= 3
    &&& pat[pat.len() - 3] == '/'
    &&& pat[pat.len() - 2] == '*'
    &&& pat[pat.len() - 1] == '*'
    &&& is_literal_glob(pat.take(pat.len() - 3))
    &&& seq_starts_with(path, pat.take(pat.len() - 2))
}

/// A compiled glob pattern, remembering the raw text it was compiled from.
/// Values exist only through [`IgnorePattern::compile`], so the compiled form
/// always belongs to the raw text.
pub struct IgnorePattern {
    raw: String,
    compiled: glob::Pattern,
}

impl IgnorePattern {
    /// The raw pattern text this value was compiled from.
    pub closed spec fn spec_raw(&self) -> Seq<char> {
        self.raw@
    }

    /// Relies on `glob::Pattern::new`: it accepts or rejects a pattern by its
    /// text alone, deterministically.
    #[verifier::external_body]
    pub(crate) fn compile(text: &str) -> (r: Result<IgnorePattern, glob::PatternError>)
        ensures
            r is Ok <==> valid_glob(text@),
            r matches Ok(p) ==> p.spec_raw() == text@,
    {
        match glob::Pattern::new(text) {
            Ok(compiled) => Ok(IgnorePattern { raw: text.to_string(), compiled }),
            Err(e) => Err(e),
        }
    }

    /// Relies on `glob::Pattern::matches` with its default options: the
    /// answer is a function of pattern text and path alone. The second
    /// clause is the one documented fact this crate needs by name: in a
    /// pattern `prefix/**` the wildcard-free `prefix/` matches only itself
    /// and `**` then matches any remainder, so every path beginning with
    /// `prefix/` is matched.
    #[verifier::external_body]
    pub(crate) fn is_match(&self, path: &str) -> (r: bool)
        ensures
            r == glob_match(self.spec_raw(), path@),
            literal_dir_prefix(self.spec_raw(), path@) ==> r,
    {
        self.compiled.matches(path)
    }
}

} // verus!
