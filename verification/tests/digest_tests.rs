use kushn::hash_bytes;
use kushn::to_hex_lower;

fn sha256_hex(bytes: &[u8]) -> String {
    let digest = <sha2::Sha256 as sha2::Digest>::digest(bytes);
    digest.iter().map(|b| format!("{:02x}", b)).collect()
}

#[test]
fn calculate_file_hash_returns_expected_digest() {
    let hash = hash_bytes(b"hello world");
    let expected = sha256_hex(b"hello world");
    assert_eq!(hash, expected);
}

#[test]
fn digest_matches_known_vector() {
    // SHA-256 of the literal bytes "hello world"
    let hash = hash_bytes(b"hello world");
    assert_eq!(
        hash,
        "b94d27b9934d3e08a52e52d7da7dabfac484efe37a5380ee9088f7ace2efcde9"
    );
}

#[test]
fn digest_is_sixty_four_lowercase_hex_chars() {
    let hash = hash_bytes(b"");
    assert_eq!(hash.len(), 64);
    assert!(hash.chars().all(|c| c.is_ascii_hexdigit() && !c.is_ascii_uppercase()));
}

#[test]
fn hashing_same_content_twice_gives_same_digest() {
    let first = hash_bytes(b"same bytes");
    let second = hash_bytes(b"same bytes");
    assert_eq!(first, second);
}

#[test]
fn different_content_gives_different_digest() {
    assert_ne!(hash_bytes(b"a"), hash_bytes(b"b"));
}

#[test]
fn hex_rendering_is_exact() {
    assert_eq!(to_hex_lower(&[]), "");
    assert_eq!(to_hex_lower(&[0x00, 0x0f, 0xbe, 0xef, 0xff]), "000fbeefff");
}
