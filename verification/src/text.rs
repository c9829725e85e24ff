//! Character-level string helpers: separator normalization and the few
//! sequence predicates the rest of the crate states its contracts with.

use vstd::prelude::*;
use vstd::string::StrSliceExecFns;

verus! {

/// `s` with every backslash replaced by a forward slash.
pub open spec fn spec_normalize(s: Seq<char>) -> Seq<char> {
    s.map_values(|c: char| if c == '\\' { '/' } else { c })
}

/// `s` contains no backslash at all.
pub open spec fn no_backslash(s: Seq<char>) -> bool {
    forall|i: int| 0 <= i < s.len() ==> s[i] != '\\'
}

/// `prefix` is an initial segment of `s`.
pub open spec fn seq_starts_with(s: Seq<char>, prefix: Seq<char>) -> bool {
    prefix.len() <= s.len() && s.take(prefix.len() as int) == prefix
}

/// On a string that is already free of backslashes, normalization is the
/// identity.
pub proof fn lemma_normalize_identity(s: Seq<char>)
    requires
        no_backslash(s),
    ensures
        spec_normalize(s) == s,
{
    assert(spec_normalize(s) =~= s);
}

/// Relies on `String::push`: it appends exactly the one given character.
#[verifier::external_body]
pub(crate) fn push_char(s: &mut String, c: char)
    ensures
        final (s)@ == old(s)@.push(c),
{
    s.push(c);
}

/// Replaces every backslash in `s` by a forward slash, so that ignore rules
/// and stored paths use one separator style on every platform.
pub fn normalize_separators(s: &str) -> (r: String)
    ensures
        r@ == spec_normalize(s@),
{
    let n = s.unicode_len();
    let mut out = String::new();
    for i in 0..n
        invariant
            n == s@.len(),
            out@ == spec_normalize(s@.take(i as int)),
    {
        let c = s.get_char(i);
        if c == '\\' {
            push_char(&mut out, '/');
        } else {
            push_char(&mut out, c);
        }
        proof {
            assert(spec_normalize(s@.take(i + 1)) =~= spec_normalize(
                s@.take(i as int),
            ).push(if s@[i as int] == '\\' { '/' } else { s@[i as int] }));
        }
    }
    proof {
        assert(s@.take(n as int) =~= s@);
    }
    out
}

} // verus!
