use rest_sync::content::{content_hash, digest_is_named, to_hex, verify_content};
use sha2::Digest;

#[test]
fn hex_of_no_bytes_is_empty() {
    assert_eq!(to_hex(&[]), "");
}

#[test]
fn hex_writes_high_half_first() {
    assert_eq!(to_hex(&[0x0a, 0x14, 0x1e]), "0a141e");
    assert_eq!(to_hex(&[0x00, 0xff, 0x10, 0x01]), "00ff1001");
}

#[test]
fn hash_of_empty_content() {
    assert_eq!(
        content_hash(b""),
        "e3b0c44298fc1c149afbf4c8996fb92427ae41e4649b934ca495991b7852b855"
    );
}

#[test]
fn hash_of_abc() {
    assert_eq!(
        content_hash(b"abc"),
        "ba7816bf8f01cfea414140de5dae2223b00361a396177a9cb410ff61f20015ad"
    );
}

#[test]
fn verify_accepts_the_content_name() {
    let name = "ba7816bf8f01cfea414140de5dae2223b00361a396177a9cb410ff61f20015ad";
    assert_eq!(verify_content(name, b"abc"), Ok(()));
}

#[test]
fn verify_reports_the_actual_name() {
    let name = "ba7816bf8f01cfea414140de5dae2223b00361a396177a9cb410ff61f20015ad";
    assert_eq!(
        verify_content(name, b""),
        Err("e3b0c44298fc1c149afbf4c8996fb92427ae41e4649b934ca495991b7852b855".to_string())
    );
}

#[test]
fn verify_rejects_uppercase_names() {
    let name = "BA7816BF8F01CFEA414140DE5DAE2223B00361A396177A9CB410FF61F20015AD";
    assert!(verify_content(name, b"abc").is_err());
}

#[test]
fn digest_naming_is_exact() {
    assert!(digest_is_named(&[0xde, 0xad], "dead"));
    assert!(!digest_is_named(&[0xde, 0xad], "DEAD"));
    assert!(!digest_is_named(&[0xde, 0xad], "dea"));
    assert!(!digest_is_named(&[0xde, 0xad], "deadbe"));
}

#[test]
fn hash_agrees_with_the_digest_written_as_hex() {
    for data in [&b""[..], b"a", b"hello world", &[0u8; 1000], &[0xffu8, 0x00, 0x7f]] {
        let expected = format!("{:x}", sha2::Sha256::digest(data));
        assert_eq!(content_hash(data), expected);
        assert_eq!(content_hash(data).len(), 64);
        assert_eq!(verify_content(&expected, data), Ok(()));
    }
}

#[test]
fn hash_of_hello_world() {
    assert_eq!(
        content_hash(b"hello world"),
        "b94d27b9934d3e08a52e52d7da7dabfac484efe37a5380ee9088f7ace2efcde9"
    );
}

#[test]
fn hex_of_every_byte_value() {
    for value in 0..=255u8 {
        assert_eq!(to_hex(&[value]), format!("{:02x}", value));
    }
}

#[test]
fn verify_rejects_a_name_that_is_a_prefix_of_the_hash() {
    let name = "ba7816bf8f01cfea414140de5dae2223b00361a396177a9cb410ff61f20015a";
    assert_eq!(
        verify_content(name, b"abc"),
        Err("ba7816bf8f01cfea414140de5dae2223b00361a396177a9cb410ff61f20015ad".to_string())
    );
}
