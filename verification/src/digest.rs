//! The digest computer: SHA-256 over a byte slice, rendered as the usual
//! 64-character lowercase hexadecimal string.
//!
//! The hash itself comes from the `sha2` crate and is only named, never
//! restated; the hex rendering is verified here.

use vstd::prelude::*;

verus! {

/// The SHA-256 digest of a byte sequence. The algorithm itself is not
/// modelled: this name stands for whatever `sha2` computes, which depends on
/// the input bytes alone.
pub uninterp spec fn sha256_of(bytes: Seq<u8>) -> Seq<u8>;

/// The lowercase hexadecimal digit for a value below 16.
pub open spec fn spec_hex_digit(n: int) -> char {
    if n == 0 {
        '0'
    } else if n == 1 {
        '1'
    } else if n == 2 {
        '2'
    } else if n == 3 {
        '3'
    } else if n == 4 {
        '4'
    } else if n == 5 {
        '5'
    } else if n == 6 {
        '6'
    } else if n == 7 {
        '7'
    } else if n == 8 {
        '8'
    } else if n == 9 {
        '9'
    } else if n == 10 {
        'a'
    } else if n == 11 {
        'b'
    } else if n == 12 {
        'c'
    } else if n == 13 {
        'd'
    } else if n == 14 {
        'e'
    } else {
        'f'
    }
}

/// Lowercase hex rendering of a byte sequence, two digits per byte,
/// high nibble first.
pub open spec fn spec_hex(bytes: Seq<u8>) -> Seq<char>
    decreases bytes.len(),
{
    if bytes.len() == 0 {
        Seq::empty()
    } else {
        seq![
            spec_hex_digit(bytes.first() as int / 16),
            spec_hex_digit(bytes.first() as int % 16),
        ] + spec_hex(bytes.drop_first())
    }
}

/// The hex string this crate stores for a file whose bytes are `bytes`.
pub open spec fn sha256_hex_of(bytes: Seq<u8>) -> Seq<char> {
    spec_hex(sha256_of(bytes))
}

/// `c` is one of the sixteen lowercase hexadecimal digits.
pub open spec fn is_lower_hex_char(c: char) -> bool {
    ('0' <= c && c <= '9') || ('a' <= c && c <= 'f')
}

/// Hex rendering produces lowercase hex digits and nothing else.
proof fn lemma_spec_hex_chars(bytes: Seq<u8>)
    ensures
        forall|i: int|
            0 <= i < spec_hex(bytes).len() ==> is_lower_hex_char(#[trigger] spec_hex(bytes)[i]),
    decreases bytes.len(),
{
    if bytes.len() > 0 {
        lemma_spec_hex_chars(bytes.drop_first());
        assert(is_lower_hex_char(spec_hex_digit(bytes.first() as int / 16)));
        assert(is_lower_hex_char(spec_hex_digit(bytes.first() as int % 16)));
        assert forall|i: int| 0 <= i < spec_hex(bytes).len() implies is_lower_hex_char(
            #[trigger] spec_hex(bytes)[i],
        ) by {
            if i >= 2 {
                assert(spec_hex(bytes)[i] == spec_hex(bytes.drop_first())[i - 2]);
            }
        }
    }
}

/// Hashing is a pure function of the content: the same bytes, wherever they
/// come from, always give the same digest string.
pub proof fn lemma_hash_deterministic(a: Seq<u8>, b: Seq<u8>)
    requires
        a == b,
    ensures
        sha256_hex_of(a) == sha256_hex_of(b),
{
}

/// Relies on `sha2::Sha256` through the `Digest` trait: the digest depends on
/// the input bytes alone and is exactly 32 bytes long.
#[verifier::external_body]
fn sha256_digest(bytes: &[u8]) -> (r: Vec<u8>)
    ensures
        r@ == sha256_of(bytes@),
        r@.len() == 32,
{
    <sha2::Sha256 as sha2::Digest>::digest(bytes).as_slice().to_vec()
}

/// The lowercase hex digit character for a nibble.
pub(crate) fn hex_digit(n: u8) -> (c: char)
    requires
        n < 16,
    ensures
        c == spec_hex_digit(n as int),
{
    match n {
        0 => '0',
        1 => '1',
        2 => '2',
        3 => '3',
        4 => '4',
        5 => '5',
        6 => '6',
        7 => '7',
        8 => '8',
        9 => '9',
        10 => 'a',
        11 => 'b',
        12 => 'c',
        13 => 'd',
        14 => 'e',
        _ => 'f',
    }
}

/// Renders a byte slice as lowercase hex, two digits per byte.
pub fn to_hex_lower(data: &[u8]) -> (r: String)
    ensures
        r@ == spec_hex(data@),
        r@.len() == 2 * data@.len(),
        forall|i: int| 0 <= i < r@.len() ==> is_lower_hex_char(#[trigger] r@[i]),
{
    proof {
        lemma_spec_hex_chars(data@);
    }
    let mut out = String::new();
    let n = data.len();
    proof {
        assert(data@.skip(0) == data@);
    }
    for i in 0..n
        invariant
            n == data@.len(),
            spec_hex(data@) =~= out@ + spec_hex(data@.skip(i as int)),
            out@.len() == 2 * i,
    {
        let b = data[i];
        push_char_pair(&mut out, b);
        proof {
            assert(data@.skip(i as int).drop_first() =~= data@.skip(i + 1));
            assert(data@.skip(i as int).first() == data@[i as int]);
        }
    }
    proof {
        assert(data@.skip(n as int) =~= Seq::<u8>::empty());
    }
    out
}

fn push_char_pair(out: &mut String, b: u8)
    ensures
        final (out)@ == old(out)@ + seq![
            spec_hex_digit(b as int / 16),
            spec_hex_digit(b as int % 16),
        ],
{
    let hi = hex_digit(b / 16);
    let lo = hex_digit(b % 16);
    crate::text::push_char(out, hi);
    crate::text::push_char(out, lo);
    proof {
        assert(old(out)@.push(hi).push(lo) =~= old(out)@ + seq![hi, lo]);
    }
}

/// Computes the SHA-256 digest of `content` and renders it as the
/// 64-character lowercase hex string stored in manifest entries.
pub fn hash_bytes(content: &[u8]) -> (r: String)
    ensures
        r@ == sha256_hex_of(content@),
        r@.len() == 64,
        forall|i: int| 0 <= i < r@.len() ==> is_lower_hex_char(#[trigger] r@[i]),
{
    let digest = sha256_digest(content);
    to_hex_lower(digest.as_slice())
}

} // verus!
