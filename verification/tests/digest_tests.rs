use tapi::digest::{calculate_file_hash, hash_bytes, hex_lower, hex_upper, ContentHasher};

#[test]
fn digest_of_the_empty_content() {
    assert_eq!(
        calculate_file_hash(b""),
        "af1349b9f5f9a1a6a0404dea36dcc9499bcb25c9adc112b7cc9a93cae41f3262"
    );
}

#[test]
fn digest_is_the_blake3_hash_in_lower_case_hex() {
    for content in [&b"abc"[..], &b"hello world"[..], &[0u8; 5000][..]] {
        let digest = calculate_file_hash(content);
        assert_eq!(digest, blake3::hash(content).to_hex().to_string());
        assert_eq!(digest.len(), 64);
        assert_eq!(hash_bytes(content), blake3::hash(content).as_bytes().to_vec());
    }
}

#[test]
fn identical_bytes_give_identical_digests() {
    let first = calculate_file_hash(b"same bytes");
    let second = calculate_file_hash(&b"same bytes".to_vec());
    assert_eq!(first, second);
    assert_ne!(first, calculate_file_hash(b"other bytes"));
}

#[test]
fn chunks_do_not_change_the_digest() {
    let whole = calculate_file_hash(b"one two three");
    let mut by_chunks = ContentHasher::new();
    for chunk in [&b"one "[..], &b""[..], &b"two"[..], &b" three"[..]] {
        by_chunks.update(chunk);
    }
    assert_eq!(by_chunks.finalize(), whole);
    let mut hasher = ContentHasher::new();
    hasher.update(b"one t");
    hasher.update(b"wo three");
    assert_eq!(hasher.finalize(), whole);
    assert_eq!(hasher.hash(), hash_bytes(b"one two three"));
    assert_eq!(ContentHasher::new().finalize(), calculate_file_hash(b""));
}

#[test]
fn hex_in_both_cases() {
    assert_eq!(hex_lower(&[0x00, 0x0f, 0xa5, 0xff]), "000fa5ff");
    assert_eq!(hex_upper(&[0x00, 0x0f, 0xa5, 0xff]), "000FA5FF");
    assert_eq!(hex_upper(&[0xde, 0xad]), "DEAD");
    assert_eq!(hex_lower(&[]), "");
    assert_eq!(hex_lower(&[1, 2, 3]), hex::encode([1, 2, 3]));
}
