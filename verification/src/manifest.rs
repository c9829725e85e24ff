//! The manifest writer's computational half: rendering the entry list as the
//! pretty-printed JSON array the tool publishes, and appending the
//! self-describing entry.
//!
//! The self-entry deliberately records the digest of the manifest's
//! first-pass bytes, not of the final bytes: a manifest that listed a digest
//! of its final content would have to contain that digest inside the very
//! bytes being digested, and no rewrite could ever reach such a fixpoint.
//! Consumers checking the self-entry must therefore hash the manifest with
//! its last element removed and re-serialized.

use vstd::prelude::*;
use vstd::string::StrSliceExecFns;
use vstd::string::StringExecFns;
use crate::FileHash;
use crate::FileHashView;
use crate::digest::hash_bytes;
use crate::digest::hex_digit;
use crate::digest::sha256_hex_of;
use crate::digest::spec_hex_digit;
use crate::text::push_char;

verus! {

/// How one character appears inside a JSON string literal: the two-character
/// escapes of the JSON grammar, `\u00..` for the remaining control
/// characters, and every other character unchanged.
pub open spec fn spec_escape_char(c: char) -> Seq<char> {
    if c == '"' {
        seq!['\\', '"']
    } else if c == '\\' {
        seq!['\\', '\\']
    } else if c == '\u{8}' {
        seq!['\\', 'b']
    } else if c == '\t' {
        seq!['\\', 't']
    } else if c == '\n' {
        seq!['\\', 'n']
    } else if c == '\u{c}' {
        seq!['\\', 'f']
    } else if c == '\r' {
        seq!['\\', 'r']
    } else if (c as u32) < 32 {
        seq![
            '\\',
            'u',
            '0',
            '0',
            spec_hex_digit(c as u32 as int / 16),
            spec_hex_digit(c as u32 as int % 16),
        ]
    } else {
        seq![c]
    }
}

/// A whole string escaped for a JSON string literal.
pub open spec fn spec_escape(s: Seq<char>) -> Seq<char>
    decreases s.len(),
{
    if s.len() == 0 {
        Seq::empty()
    } else {
        spec_escape_char(s.first()) + spec_escape(s.drop_first())
    }
}

proof fn lemma_escape_push(s: Seq<char>, c: char)
    ensures
        spec_escape(s.push(c)) == spec_escape(s) + spec_escape_char(c),
    decreases s.len(),
{
    if s.len() == 0 {
        assert(s.push(c).first() == c);
        assert(s.push(c).drop_first() =~= Seq::<char>::empty());
        assert(spec_escape(s.push(c).drop_first()) =~= Seq::<char>::empty());
        assert(spec_escape(s) =~= Seq::<char>::empty());
        assert(spec_escape(s.push(c)) =~= spec_escape(s) + spec_escape_char(c));
    } else {
        assert(s.push(c).drop_first() =~= s.drop_first().push(c));
        lemma_escape_push(s.drop_first(), c);
        assert(spec_escape(s.push(c)) =~= spec_escape(s) + spec_escape_char(c));
    }
}

/// One manifest entry as a pretty-printed JSON object at array depth: two
/// spaces of indent, the `path` field before the `hash` field.
pub open spec fn spec_render_entry(e: FileHashView) -> Seq<char> {
    "  {\n    \"path\": \""@ + spec_escape(e.path) + "\",\n    \"hash\": \""@ + spec_escape(e.hash)
        + "\"\n  }"@
}

/// The interior of the JSON array: every entry on its own lines, entries
/// separated by commas.
pub open spec fn spec_render_items(entries: Seq<FileHashView>) -> Seq<char>
    decreases entries.len(),
{
    if entries.len() == 0 {
        Seq::empty()
    } else {
        spec_render_items(entries.drop_last()) + (if entries.len() == 1 {
            "\n"@
        } else {
            ",\n"@
        }) + spec_render_entry(entries.last())
    }
}

/// The manifest as serialized: a pretty-printed JSON array of objects.
pub open spec fn spec_render(entries: Seq<FileHashView>) -> Seq<char> {
    if entries.len() == 0 {
        "[]"@
    } else {
        "["@ + spec_render_items(entries) + "\n]"@
    }
}

/// Appends `s`, escaped for a JSON string literal, to `out`.
fn append_escaped(out: &mut String, s: &str)
    ensures
        final (out)@ == old(out)@ + spec_escape(s@),
{
    let ghost base = out@;
    let n = s.unicode_len();
    for i in 0..n
        invariant
            n == s@.len(),
            out@ == base + spec_escape(s@.take(i as int)),
    {
        let c = s.get_char(i);
        if c == '"' {
            push_char(out, '\\');
            push_char(out, '"');
        } else if c == '\\' {
            push_char(out, '\\');
            push_char(out, '\\');
        } else if c == '\u{8}' {
            push_char(out, '\\');
            push_char(out, 'b');
        } else if c == '\t' {
            push_char(out, '\\');
            push_char(out, 't');
        } else if c == '\n' {
            push_char(out, '\\');
            push_char(out, 'n');
        } else if c == '\u{c}' {
            push_char(out, '\\');
            push_char(out, 'f');
        } else if c == '\r' {
            push_char(out, '\\');
            push_char(out, 'r');
        } else if (c as u32) < 32 {
            let code = c as u32;
            push_char(out, '\\');
            push_char(out, 'u');
            push_char(out, '0');
            push_char(out, '0');
            push_char(out, hex_digit((code / 16) as u8));
            push_char(out, hex_digit((code % 16) as u8));
        } else {
            push_char(out, c);
        }
        proof {
            assert(out@ =~= base + spec_escape(s@.take(i as int)) + spec_escape_char(c));
            lemma_escape_push(s@.take(i as int), c);
            assert(s@.take(i + 1) =~= s@.take(i as int).push(c));
            assert(out@ =~= base + spec_escape(s@.take(i + 1)));
        }
    }
    proof {
        assert(s@.take(n as int) =~= s@);
    }
}

/// Appends one entry's JSON object to `out`.
fn append_entry(out: &mut String, e: &FileHash)
    ensures
        final (out)@ == old(out)@ + spec_render_entry(e@),
{
    out.append("  {\n    \"path\": \"");
    append_escaped(out, e.path.as_str());
    out.append("\",\n    \"hash\": \"");
    append_escaped(out, e.hash.as_str());
    out.append("\"\n  }");
    proof {
        assert(final (out)@ =~= old(out)@ + spec_render_entry(e@));
    }
}

/// Serializes the manifest: a pretty-printed JSON array with stable field
/// order, `path` before `hash` in every object.
pub fn render_manifest(entries: &Vec<FileHash>) -> (r: String)
    ensures
        r@ == spec_render(crate::hash_views(entries@)),
{
    let n = entries.len();
    if n == 0 {
        return "[]".to_owned();
    }
    let mut out = String::new();
    out.append("[");
    for idx in 0..n
        invariant
            n == entries@.len(),
            out@ == "["@ + spec_render_items(crate::hash_views(entries@).take(idx as int)),
    {
        let ghost prev = out@;
        if idx == 0 {
            out.append("\n");
        } else {
            out.append(",\n");
        }
        append_entry(&mut out, &entries[idx]);
        proof {
            let hv = crate::hash_views(entries@);
            assert(hv.take(idx + 1).drop_last() =~= hv.take(idx as int));
            assert(hv.take(idx + 1).last() == hv[idx as int]);
            assert(out@ =~= "["@ + spec_render_items(hv.take(idx + 1)));
        }
    }
    out.append("\n]");
    proof {
        assert(crate::hash_views(entries@).take(n as int) =~= crate::hash_views(entries@));
    }
    out
}

/// Appends the manifest's record of itself: the output filename as given,
/// and the digest of `written`, the manifest's first-pass bytes as they
/// stand on disk.
pub fn with_self_entry(entries: &mut Vec<FileHash>, output_name: &str, written: &[u8])
    ensures
        crate::hash_views(final (entries)@) == crate::hash_views(old(entries)@).push(
            (FileHashView { path: output_name@, hash: sha256_hex_of(written@) }),
        ),
{
    let hash = hash_bytes(written);
    let path = output_name.to_owned();
    entries.push(FileHash { path, hash });
    proof {
        assert(crate::hash_views(final (entries)@) =~= crate::hash_views(old(entries)@).push(
            (FileHashView { path: output_name@, hash: sha256_hex_of(written@) }),
        ));
    }
}

/// The self-reference invariant: after the self-entry is appended, the
/// manifest's final entry names the output file and carries the digest of
/// the first-pass bytes, and the entries before it are exactly the ones the
/// traversal produced.
pub proof fn lemma_self_reference(entries: Seq<FileHashView>, name: Seq<char>, written: Seq<u8>)
    ensures
        ({
            let full = entries.push(
                (FileHashView { path: name, hash: sha256_hex_of(written) }),
            );
            &&& full.last().path == name
            &&& full.last().hash == sha256_hex_of(written)
            &&& full.drop_last() == entries
            &&& full.len() == entries.len() + 1
        }),
{
    let full = entries.push((FileHashView { path: name, hash: sha256_hex_of(written) }));
    assert(full.drop_last() =~= entries);
}

} // verus!
