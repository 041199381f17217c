use promptpack::crypto::{decode_pack, encode_pack, is_encrypted, xor_obfuscate, CryptoError};

const MAGIC: [u8; 3] = [0x50, 0x50, 0x4B]; // "PPK"
const OBFUSCATION_KEY: &[u8] = b"PromptPack";

fn sha256(data: &[u8]) -> Vec<u8> {
    let mut hasher = <sha2::Sha256 as sha2::Digest>::new();
    sha2::Digest::update(&mut hasher, data);
    sha2::Digest::finalize(hasher).to_vec()
}

#[test]
fn concrete_scenario_hello_world() {
    let file = encode_pack("hello world", None).unwrap();
    assert_eq!(&file[0..3], &MAGIC);
    assert_eq!(file[3], 0);
    assert!(file.len() >= 37);
    let text = decode_pack(&file, None).unwrap();
    assert_eq!(text, "hello world");
}

#[test]
fn round_trip_no_password() {
    for s in [
        "",
        "a",
        "hello world",
        "{\"prompts\":[{\"text\":\"hi\"}]}",
        "multi-byte: \u{00e9}\u{4e16}\u{754c} \u{1F600} end",
        "line\nbreaks\tand\0nulls",
    ] {
        let file = encode_pack(s, None).unwrap();
        assert_eq!(decode_pack(&file, None).unwrap(), s);
        // a version-0 pack ignores any password handed to decode
        assert_eq!(decode_pack(&file, Some("anything")).unwrap(), s);
    }
}

#[test]
fn round_trip_with_password() {
    for s in ["", "secret payload", "\u{00e9}\u{4e16}\u{754c}"] {
        for p in ["x", "a long password with spaces", "p\u{00e4}ss"] {
            let file = encode_pack(s, Some(p)).unwrap();
            assert_eq!(file[3], 1);
            assert_eq!(decode_pack(&file, Some(p)).unwrap(), s);
        }
    }
}

#[test]
fn wrong_password_fails() {
    let file = encode_pack("some text", Some("correct")).unwrap();
    let err = decode_pack(&file, Some("wrong")).unwrap_err();
    assert!(matches!(err, CryptoError::InvalidPassword));
}

#[test]
fn missing_password_fails() {
    let file = encode_pack("some text", Some("x")).unwrap();
    let err = decode_pack(&file, None).unwrap_err();
    assert!(matches!(err, CryptoError::PasswordRequired));
}

#[test]
fn corruption_of_any_payload_bit_is_detected() {
    let file = encode_pack("corruption test text", None).unwrap();
    for pos in 36..file.len() {
        for bit in 0..8 {
            let mut corrupted = file.clone();
            corrupted[pos] ^= 1u8 << bit;
            let err = decode_pack(&corrupted, None).unwrap_err();
            assert!(matches!(err, CryptoError::HashMismatch));
        }
    }
}

#[test]
fn corruption_of_the_digest_is_detected() {
    let file = encode_pack("digest test", None).unwrap();
    for pos in 4..36 {
        let mut corrupted = file.clone();
        corrupted[pos] ^= 0x01;
        let err = decode_pack(&corrupted, None).unwrap_err();
        assert!(matches!(err, CryptoError::HashMismatch));
    }
}

#[test]
fn truncation_fails_with_invalid_format() {
    let file = encode_pack("truncation test", None).unwrap();
    for len in 0..37 {
        let err = decode_pack(&file[0..len], None).unwrap_err();
        assert!(matches!(err, CryptoError::InvalidFormat));
    }
}

#[test]
fn unknown_version_fails_even_with_matching_digest() {
    let payload: Vec<u8> = vec![7u8; 20];
    let mut file = Vec::new();
    file.extend_from_slice(&MAGIC);
    file.push(2);
    file.extend_from_slice(&sha256(&payload));
    file.extend_from_slice(&payload);
    let err = decode_pack(&file, None).unwrap_err();
    assert!(matches!(err, CryptoError::InvalidVersion(2)));
}

#[test]
fn bad_magic_fails_before_anything_else() {
    // long enough, correct digest over the payload, version 0: only the magic is wrong
    let payload: Vec<u8> = vec![9u8; 20];
    let mut file = Vec::new();
    file.extend_from_slice(b"XXX");
    file.push(0);
    file.extend_from_slice(&sha256(&payload));
    file.extend_from_slice(&payload);
    let err = decode_pack(&file, None).unwrap_err();
    assert!(matches!(err, CryptoError::InvalidFormat));
}

#[test]
fn fresh_salt_and_nonce_on_every_encode() {
    let a = encode_pack("same text", Some("same password")).unwrap();
    let b = encode_pack("same text", Some("same password")).unwrap();
    // the first 28 payload bytes are the obfuscated salt and nonce; obfuscation
    // is a fixed XOR, so equal obfuscated bytes would mean equal salt and nonce
    assert_ne!(&a[36..36 + 28], &b[36..36 + 28]);
    assert_eq!(decode_pack(&a, Some("same password")).unwrap(), "same text");
    assert_eq!(decode_pack(&b, Some("same password")).unwrap(), "same text");
}

#[test]
fn peek_reports_encryption_without_password() {
    let plain = encode_pack("p", None).unwrap();
    let cipher = encode_pack("p", Some("pw")).unwrap();
    assert!(!is_encrypted(&plain).unwrap());
    assert!(is_encrypted(&cipher).unwrap());
    // only magic and minimum length matter
    assert!(is_encrypted(&plain[0..4]).unwrap() == false);
    assert!(matches!(is_encrypted(&plain[0..3]).unwrap_err(), CryptoError::InvalidFormat));
    assert!(matches!(is_encrypted(b"XXXX").unwrap_err(), CryptoError::InvalidFormat));
}

#[test]
fn xor_obfuscate_is_an_involution() {
    let data: Vec<u8> = (0u8..=255).collect();
    let once = xor_obfuscate(&data);
    assert_ne!(once, data);
    let twice = xor_obfuscate(&once);
    assert_eq!(twice, data);
}

#[test]
fn xor_obfuscate_uses_the_fixed_key() {
    // the key XORed with itself is all zero bytes
    let out = xor_obfuscate(OBFUSCATION_KEY);
    assert_eq!(out, vec![0u8; OBFUSCATION_KEY.len()]);
    assert_eq!(xor_obfuscate(&[]), Vec::<u8>::new());
    // first byte of the key is 'P'
    assert_eq!(xor_obfuscate(&[0u8])[0], b'P');
}

#[test]
fn payload_is_obfuscated_not_plain() {
    // the compressed bytes never appear raw in the file: the gzip header byte
    // 0x1f would stand at offset 36, but it is XORed with 'P'
    let file = encode_pack("obfuscation check", None).unwrap();
    assert_eq!(file[36], 0x1f ^ b'P');
}

#[test]
fn encode_decode_large_text() {
    let s = "0123456789".repeat(5000);
    let file = encode_pack(&s, None).unwrap();
    // compression makes the repetitive file smaller than the text
    assert!(file.len() < s.len());
    assert_eq!(decode_pack(&file, None).unwrap(), s);
}
