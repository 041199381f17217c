//! The pack container codec.
//!
//! A pack file is `Magic(3) || Version(1) || Digest(32) || Payload`, where the
//! payload is the XOR-obfuscated image of either the gzip-compressed text
//! (version 0) or `Salt(16) || Nonce(12) || Ciphertext` produced by
//! AES-256-GCM under a PBKDF2-derived key (version 1), and the digest is the
//! SHA-256 hash of the payload as stored.

use vstd::prelude::*;

verus! {

use vstd::slice::slice_subrange;
use vstd::string::StringSliceAdditionalSpecFns;
use vstd::utf8::{decode_utf8, encode_utf8, valid_utf8};

pub const VERSION_UNENCRYPTED: u8 = 0;

pub const VERSION_ENCRYPTED: u8 = 1;

pub const PBKDF2_ITERATIONS: u32 = 100_000;

/// The failure kinds of the codec, one variant per distinguishable failure.
#[derive(Debug, Clone, Copy, PartialEq, Eq, Structural)]
pub enum CryptoError {
    InvalidFormat,
    InvalidVersion(u8),
    HashMismatch,
    EncryptionFailed,
    DecryptionFailed,
    CompressionFailed,
    DecompressionFailed,
    PasswordRequired,
    InvalidPassword,
}

/// The fixed three magic bytes, ASCII `PPK`.
pub open spec fn spec_magic() -> Seq<u8> {
    seq![80u8, 80u8, 75u8]
}

/// The fixed, publicly known obfuscation key, ASCII `PromptPack`.
pub open spec fn spec_obf_key() -> Seq<u8> {
    seq![80u8, 114u8, 111u8, 109u8, 112u8, 116u8, 80u8, 97u8, 99u8, 107u8]
}

/// XOR of every byte with the repeating obfuscation key.
pub open spec fn xor_seq(data: Seq<u8>) -> Seq<u8> {
    Seq::new(data.len(), |i: int| data[i] ^ spec_obf_key()[i % (spec_obf_key().len() as int)])
}

/// The obfuscation transform is an involution: applied twice under the fixed
/// key it yields the original bytes.
pub proof fn lemma_xor_involution(data: Seq<u8>)
    ensures
        xor_seq(xor_seq(data)) == data,
{
    assert forall|i: int| 0 <= i < data.len() implies xor_seq(xor_seq(data))[i] == data[i] by {
        let b = data[i];
        let k = spec_obf_key()[i % (spec_obf_key().len() as int)];
        assert((b ^ k) ^ k == b) by (bit_vector);
    }
    assert(xor_seq(xor_seq(data)) =~= data);
}

fn obfuscation_key() -> (r: Vec<u8>)
    ensures
        r@ == spec_obf_key(),
{
    let r: Vec<u8> = vec![80u8, 114u8, 111u8, 109u8, 112u8, 116u8, 80u8, 97u8, 99u8, 107u8];
    proof {
        assert(r@ =~= spec_obf_key());
    }
    r
}

/// XOR obfuscation with the fixed repeating key; its own inverse.
pub fn xor_obfuscate(data: &[u8]) -> (r: Vec<u8>)
    ensures
        r@ == xor_seq(data@),
{
    let key = obfuscation_key();
    let mut out: Vec<u8> = Vec::new();
    let mut i: usize = 0;
    while i < data.len()
        invariant
            i <= data@.len(),
            key@ == spec_obf_key(),
            out@.len() == i,
            forall|j: int| 0 <= j < i ==> out@[j] == xor_seq(data@)[j],
        decreases data@.len() - i,
    {
        let b = data[i] ^ key[i % key.len()];
        out.push(b);
        i = i + 1;
    }
    proof {
        assert(out@ =~= xor_seq(data@));
    }
    out
}

/// What gzip decompression yields on a byte sequence: the recovered bytes, or
/// nothing where the stream is rejected. Decompression is a function of the
/// bytes alone.
pub uninterp spec fn gunzip_of(data: Seq<u8>) -> Option<Seq<u8>>;

/// What SHA-256 yields on a byte sequence; always 32 bytes.
pub uninterp spec fn sha256_of(data: Seq<u8>) -> Seq<u8>;

/// What PBKDF2-HMAC-SHA-256 yields for a password, a salt and an iteration
/// count; always 32 bytes here.
pub uninterp spec fn pbkdf2_key_of(password: Seq<u8>, salt: Seq<u8>, iterations: u32) -> Seq<u8>;

/// What AES-256-GCM decryption yields for a 32-byte key, a 12-byte nonce and a
/// ciphertext: the plaintext, or nothing where the authentication tag does not
/// match.
pub uninterp spec fn aes_gcm_open(key: Seq<u8>, nonce: Seq<u8>, ciphertext: Seq<u8>) -> Option<
    Seq<u8>,
>;

/// Compress data using gzip.
///
/// Relies on flate2's `GzEncoder`: gzip is lossless, so decompressing its
/// output recovers the input exactly, and the output is never empty (a gzip
/// stream begins with a 10-byte header). The only failure path is an error of
/// the underlying writer, and writing into a `Vec` never fails, so the call
/// returns `Ok`; the error mapping in the body is defensive only.
#[verifier::external_body]
fn compress(data: &[u8]) -> (r: Result<Vec<u8>, CryptoError>)
    ensures
        r is Ok,
        r matches Ok(z) ==> gunzip_of(z@) == Some(data@) && z@.len() >= 1,
{
    let mut encoder = flate2::write::GzEncoder::new(Vec::new(), flate2::Compression::default());
    std::io::Write::write_all(&mut encoder, data).map_err(|_| CryptoError::CompressionFailed)?;
    encoder.finish().map_err(|_| CryptoError::CompressionFailed)
}

/// Decompress gzip data.
///
/// Relies on flate2's `GzDecoder`: reading to the end yields the decompressed
/// bytes, a function of the input bytes alone, and fails exactly where the
/// stream is malformed.
#[verifier::external_body]
fn decompress(data: &[u8]) -> (r: Result<Vec<u8>, CryptoError>)
    ensures
        r matches Ok(z) ==> gunzip_of(data@) == Some(z@),
        r is Ok <==> gunzip_of(data@) is Some,
        r matches Err(e) ==> e == CryptoError::DecompressionFailed,
{
    let mut decoder = flate2::read::GzDecoder::new(data);
    let mut decompressed = Vec::new();
    std::io::Read::read_to_end(&mut decoder, &mut decompressed)
        .map_err(|_| CryptoError::DecompressionFailed)?;
    Ok(decompressed)
}

/// Compute the SHA-256 digest of a byte slice.
///
/// Relies on sha2's `Sha256`: a 32-byte digest, a function of the bytes alone.
#[verifier::external_body]
fn sha256_digest(data: &[u8]) -> (r: Vec<u8>)
    ensures
        r@ == sha256_of(data@),
        r@.len() == 32,
{
    let mut hasher = <sha2::Sha256 as sha2::Digest>::new();
    sha2::Digest::update(&mut hasher, data);
    sha2::Digest::finalize(hasher).to_vec()
}

/// Derive a 32-byte encryption key from a password and a salt.
///
/// Relies on pbkdf2's `pbkdf2_hmac` with SHA-256: it fills the 32-byte buffer
/// with a key that is a function of password, salt and iteration count alone.
#[verifier::external_body]
fn derive_key(password: &str, salt: &[u8], iterations: u32) -> (r: Vec<u8>)
    ensures
        r@ == pbkdf2_key_of(password.spec_bytes(), salt@, iterations),
        r@.len() == 32,
{
    let mut key = [0u8; 32];
    pbkdf2::pbkdf2_hmac::<sha2::Sha256>(password.as_bytes(), salt, iterations, &mut key);
    key.to_vec()
}

/// Draw `n` random bytes.
///
/// Relies on rand's `thread_rng`, a cryptographically secure source; nothing
/// is promised of the values themselves.
#[verifier::external_body]
fn random_bytes(n: usize) -> (r: Vec<u8>)
    ensures
        r@.len() == n,
{
    let mut buf = vec![0u8; n];
    rand::Rng::fill(&mut rand::thread_rng(), buf.as_mut_slice());
    buf
}

/// Encrypt a buffer with AES-256-GCM.
///
/// Relies on aes_gcm's `Aes256Gcm`: constructing the cipher from a 32-byte key
/// succeeds, encryption appends the 16-byte authentication tag, and decrypting
/// the result under the same key and nonce recovers the plaintext. Encryption
/// fails only on a plaintext beyond the mode's length bound of 2^36 bytes.
#[verifier::external_body]
fn aes_encrypt(key: &[u8], nonce: &[u8], data: &[u8]) -> (r: Result<Vec<u8>, CryptoError>)
    requires
        key@.len() == 32,
        nonce@.len() == 12,
    ensures
        data@.len() <= 0x10_0000_0000 ==> r is Ok,
        r matches Ok(c) ==> aes_gcm_open(key@, nonce@, c@) == Some(data@) && c@.len() == data@.len()
            + 16,
        r matches Err(e) ==> e == CryptoError::EncryptionFailed,
{
    let cipher = <aes_gcm::Aes256Gcm as aes_gcm::aead::KeyInit>::new_from_slice(key)
        .map_err(|_| CryptoError::EncryptionFailed)?;
    aes_gcm::aead::Aead::encrypt(&cipher, aes_gcm::Nonce::from_slice(nonce), data)
        .map_err(|_| CryptoError::EncryptionFailed)
}

/// Decrypt a buffer with AES-256-GCM.
///
/// Relies on aes_gcm's `Aes256Gcm`: constructing the cipher from a 32-byte key
/// succeeds, and decryption is a function of key, nonce and ciphertext alone,
/// failing exactly where the authentication tag does not match (a wrong
/// password and tampered bytes are indistinguishable).
#[verifier::external_body]
fn aes_decrypt(key: &[u8], nonce: &[u8], ciphertext: &[u8]) -> (r: Result<Vec<u8>, CryptoError>)
    requires
        key@.len() == 32,
        nonce@.len() == 12,
    ensures
        r matches Ok(z) ==> aes_gcm_open(key@, nonce@, ciphertext@) == Some(z@),
        r is Ok <==> aes_gcm_open(key@, nonce@, ciphertext@) is Some,
        r matches Err(e) ==> e == CryptoError::InvalidPassword,
{
    let cipher = <aes_gcm::Aes256Gcm as aes_gcm::aead::KeyInit>::new_from_slice(key)
        .map_err(|_| CryptoError::InvalidPassword)?;
    aes_gcm::aead::Aead::decrypt(&cipher, aes_gcm::Nonce::from_slice(nonce), ciphertext)
        .map_err(|_| CryptoError::InvalidPassword)
}

/// `body` is `Salt(16) || Nonce(12) || Ciphertext` where the ciphertext opens
/// under the key derived from `password` and the embedded salt, back to
/// `plain`.
pub open spec fn sealed_body(body: Seq<u8>, plain: Seq<u8>, password: Seq<char>) -> bool {
    let salt = body.subrange(0, 16);
    let nonce = body.subrange(16, 28);
    let ct = body.subrange(28, body.len() as int);
    let key = pbkdf2_key_of(encode_utf8(password), salt, PBKDF2_ITERATIONS);
    &&& body.len() == plain.len() + 44
    &&& key.len() == 32
    &&& aes_gcm_open(key, nonce, ct) == Some(plain)
}

/// Encrypt data with AES-256-GCM under a fresh random salt and nonce,
/// returning `Salt(16) || Nonce(12) || Ciphertext`.
fn encrypt_aes(data: &[u8], password: &str) -> (r: Result<Vec<u8>, CryptoError>)
    ensures
        data@.len() <= 0x10_0000_0000 ==> r is Ok,
        r matches Ok(b) ==> sealed_body(b@, data@, password@),
        r matches Err(e) ==> e == CryptoError::EncryptionFailed,
{
    let salt = random_bytes(16);
    let nonce = random_bytes(12);
    let key = derive_key(password, salt.as_slice(), PBKDF2_ITERATIONS);
    let ciphertext = match aes_encrypt(key.as_slice(), nonce.as_slice(), data) {
        Ok(c) => c,
        Err(e) => {
            return Err(e);
        },
    };
    let mut result: Vec<u8> = Vec::new();
    result.extend_from_slice(salt.as_slice());
    result.extend_from_slice(nonce.as_slice());
    result.extend_from_slice(ciphertext.as_slice());
    proof {
        assert(result@.subrange(0, 16) =~= salt@);
        assert(result@.subrange(16, 28) =~= nonce@);
        assert(result@.subrange(28, result@.len() as int) =~= ciphertext@);
    }
    Ok(result)
}

/// Decrypt a `Salt(16) || Nonce(12) || Ciphertext` buffer with AES-256-GCM
/// under the key derived from the password and the embedded salt.
fn decrypt_aes(data: &[u8], password: &str) -> (r: Result<Vec<u8>, CryptoError>)
    ensures
        data@.len() < 28 ==> r == Err::<Vec<u8>, CryptoError>(CryptoError::DecryptionFailed),
        data@.len() >= 28 ==> {
            let key = pbkdf2_key_of(encode_utf8(password@), data@.subrange(0, 16),
            PBKDF2_ITERATIONS);
            let opened = aes_gcm_open(key, data@.subrange(16, 28), data@.subrange(28,
            data@.len() as int));
            match r {
                Ok(z) => opened == Some(z@),
                Err(e) => opened is None && e == CryptoError::InvalidPassword,
            }
        },
{
    if data.len() < 28 {
        return Err(CryptoError::DecryptionFailed);
    }
    let salt = slice_subrange(data, 0, 16);
    let nonce_bytes = slice_subrange(data, 16, 28);
    let ciphertext = slice_subrange(data, 28, data.len());
    let key = derive_key(password, salt, PBKDF2_ITERATIONS);
    aes_decrypt(key.as_slice(), nonce_bytes, ciphertext)
}

/// Turn bytes into text.
///
/// Relies on `String::from_utf8` of std: it succeeds exactly on valid UTF-8
/// and yields its decoding.
#[verifier::external_body]
fn string_from_utf8(bytes: Vec<u8>) -> (r: Option<String>)
    ensures
        r is Some <==> valid_utf8(bytes@),
        r matches Some(s) ==> s@ == decode_utf8(bytes@),
{
    String::from_utf8(bytes).ok()
}

fn bytes_eq(a: &[u8], b: &[u8]) -> (r: bool)
    ensures
        r <==> a@ == b@,
{
    if a.len() != b.len() {
        return false;
    }
    let mut i: usize = 0;
    while i < a.len()
        invariant
            i <= a@.len(),
            a@.len() == b@.len(),
            forall|j: int| 0 <= j < i ==> a@[j] == b@[j],
        decreases a@.len() - i,
    {
        if a[i] != b[i] {
            return false;
        }
        i = i + 1;
    }
    proof {
        assert(a@ =~= b@);
    }
    true
}

/// The file is long enough to hold a header and some payload, and starts with
/// the magic bytes.
pub open spec fn header_ok(file: Seq<u8>) -> bool {
    file.len() >= 37 && file.subrange(0, 3) == spec_magic()
}

/// The digest field as stored in the file.
pub open spec fn stored_digest(file: Seq<u8>) -> Seq<u8> {
    file.subrange(4, 36)
}

/// The payload region of the file.
pub open spec fn payload_of(file: Seq<u8>) -> Seq<u8> {
    file.subrange(36, file.len() as int)
}

/// The stored digest matches the SHA-256 hash of the payload as stored.
pub open spec fn digest_ok(file: Seq<u8>) -> bool {
    stored_digest(file) == sha256_of(payload_of(file))
}

/// The complete file bytes for a version tag and a payload.
pub open spec fn pack_bytes(version: u8, payload: Seq<u8>) -> Seq<u8> {
    spec_magic() + seq![version] + sha256_of(payload) + payload
}

/// `file` is an unencrypted pack of `plain`, with `z` its compressed image.
pub open spec fn is_plain_pack_with(file: Seq<u8>, z: Seq<u8>, plain: Seq<char>) -> bool {
    &&& gunzip_of(z) == Some(encode_utf8(plain))
    &&& z.len() >= 1
    &&& sha256_of(xor_seq(z)).len() == 32
    &&& file == pack_bytes(VERSION_UNENCRYPTED, xor_seq(z))
}

/// `file` is an unencrypted pack of the text `plain`.
pub open spec fn is_plain_pack(file: Seq<u8>, plain: Seq<char>) -> bool {
    exists|z: Seq<u8>| is_plain_pack_with(file, z, plain)
}

/// `file` is an encrypted pack of `plain` under `password`, with `body` the
/// salt-nonce-ciphertext buffer and `z` the compressed image of the text.
pub open spec fn is_cipher_pack_with(
    file: Seq<u8>,
    body: Seq<u8>,
    z: Seq<u8>,
    plain: Seq<char>,
    password: Seq<char>,
) -> bool {
    &&& gunzip_of(z) == Some(encode_utf8(plain))
    &&& sealed_body(body, z, password)
    &&& sha256_of(xor_seq(body)).len() == 32
    &&& file == pack_bytes(VERSION_ENCRYPTED, xor_seq(body))
}

/// `file` is an encrypted pack of the text `plain` under `password`.
pub open spec fn is_cipher_pack(file: Seq<u8>, plain: Seq<char>, password: Seq<char>) -> bool {
    exists|body: Seq<u8>, z: Seq<u8>| is_cipher_pack_with(file, body, z, plain, password)
}

/// An unencrypted pack has a well-formed header, a matching digest, version 0,
/// and a payload whose de-obfuscation decompresses to the UTF-8 bytes of its
/// text.
pub broadcast proof fn lemma_plain_pack_props(file: Seq<u8>, plain: Seq<char>)
    ensures
        #[trigger] is_plain_pack(file, plain) ==> {
            &&& header_ok(file)
            &&& digest_ok(file)
            &&& file[3] == VERSION_UNENCRYPTED
            &&& gunzip_of(xor_seq(payload_of(file))) == Some(encode_utf8(plain))
            &&& valid_utf8(encode_utf8(plain))
            &&& decode_utf8(encode_utf8(plain)) == plain
        },
{
    if !is_plain_pack(file, plain) {
        return;
    }
    let z = choose|z: Seq<u8>| is_plain_pack_with(file, z, plain);
    let payload = xor_seq(z);
    assert(file.len() == 36 + z.len());
    assert(file.subrange(0, 3) =~= spec_magic());
    assert(stored_digest(file) =~= sha256_of(payload));
    assert(payload_of(file) =~= payload);
    lemma_xor_involution(z);
    vstd::utf8::encode_utf8_valid_utf8(plain);
    vstd::utf8::encode_utf8_decode_utf8(plain);
}

/// An encrypted pack has a well-formed header, a matching digest, version 1,
/// and a payload whose de-obfuscation opens under the password's derived key
/// and decompresses to the UTF-8 bytes of its text.
pub broadcast proof fn lemma_cipher_pack_props(file: Seq<u8>, plain: Seq<char>, password: Seq<char>)
    ensures
        #[trigger] is_cipher_pack(file, plain, password) ==> {
            let body = xor_seq(payload_of(file));
            let key = pbkdf2_key_of(encode_utf8(password), body.subrange(0, 16),
            PBKDF2_ITERATIONS);
            &&& header_ok(file)
            &&& digest_ok(file)
            &&& file[3] == VERSION_ENCRYPTED
            &&& body.len() >= 44
            &&& key.len() == 32
            &&& (aes_gcm_open(key, body.subrange(16, 28), body.subrange(28, body.len() as int))
                matches Some(z) && gunzip_of(z) == Some(encode_utf8(plain)))
            &&& valid_utf8(encode_utf8(plain))
            &&& decode_utf8(encode_utf8(plain)) == plain
        },
{
    if !is_cipher_pack(file, plain, password) {
        return;
    }
    let (body, z): (Seq<u8>, Seq<u8>) = choose|body: Seq<u8>, z: Seq<u8>|
        is_cipher_pack_with(file, body, z, plain, password);
    let payload = xor_seq(body);
    assert(file.len() == 36 + body.len());
    assert(file.subrange(0, 3) =~= spec_magic());
    assert(stored_digest(file) =~= sha256_of(payload));
    assert(payload_of(file) =~= payload);
    lemma_xor_involution(body);
    assert(xor_seq(payload_of(file)) == body);
    vstd::utf8::encode_utf8_valid_utf8(plain);
    vstd::utf8::encode_utf8_decode_utf8(plain);
}

/// Encode text into the pack container: compress, encrypt when a password is
/// given, obfuscate, and prepend the header with the payload digest.
///
/// Without a password the call cannot fail; with one, the only failure is the
/// cipher's length bound, reached when the compressed text exceeds 2^36
/// bytes.
pub fn encode_pack(json_data: &str, password: Option<&str>) -> (r: Result<Vec<u8>, CryptoError>)
    ensures
        r matches Ok(f) ==> header_ok(f@) && digest_ok(f@),
        password is None ==> (r matches Ok(f) ==> f@[3] == VERSION_UNENCRYPTED && is_plain_pack(
            f@,
            json_data@,
        )),
        (password matches Some(p) ==> (r matches Ok(f) ==> f@[3] == VERSION_ENCRYPTED
            && is_cipher_pack(f@, json_data@, p@))),
        password is None ==> r is Ok,
        r matches Err(e) ==> password is Some && e == CryptoError::EncryptionFailed
            && (exists|z: Seq<u8>|
            gunzip_of(z) == Some(encode_utf8(json_data@)) && z.len() > 0x10_0000_0000),
{
    let compressed = match compress(json_data.as_bytes()) {
        Ok(c) => c,
        Err(e) => {
            return Err(e);
        },
    };
    let ghost body_view: Seq<u8>;
    let (version, payload): (u8, Vec<u8>) = match password {
        Some(pwd) => {
            let encrypted = match encrypt_aes(compressed.as_slice(), pwd) {
                Ok(b) => b,
                Err(e) => {
                    return Err(e);
                },
            };
            proof {
                body_view = encrypted@;
            }
            let obfuscated = xor_obfuscate(encrypted.as_slice());
            (VERSION_ENCRYPTED, obfuscated)
        },
        None => {
            proof {
                body_view = compressed@;
            }
            let obfuscated = xor_obfuscate(compressed.as_slice());
            (VERSION_UNENCRYPTED, obfuscated)
        },
    };
    let hash = sha256_digest(payload.as_slice());
    let mut result: Vec<u8> = Vec::new();
    result.push(80);
    result.push(80);
    result.push(75);
    result.push(version);
    result.extend_from_slice(hash.as_slice());
    result.extend_from_slice(payload.as_slice());
    proof {
        assert(result@ =~= pack_bytes(version, payload@));
        assert(result@.subrange(0, 3) =~= spec_magic());
        assert(stored_digest(result@) =~= sha256_of(payload@));
        assert(payload_of(result@) =~= payload@);
        match password {
            Some(pwd) => {
                assert(is_cipher_pack_with(result@, body_view, compressed@, json_data@, pwd@));
            },
            None => {
                assert(is_plain_pack_with(result@, body_view, json_data@));
            },
        }
    }
    Ok(result)
}

/// Decode a pack container back into its text: validate the header, verify
/// the digest, de-obfuscate, decrypt when the file is encrypted, decompress,
/// and read the bytes as UTF-8.
///
/// The last two clauses are the round-trip laws: a file that `encode_pack`
/// produced decodes, under the matching password, to exactly the text it was
/// given.
pub fn decode_pack(data: &[u8], password: Option<&str>) -> (r: Result<String, CryptoError>)
    ensures
        r == Err::<String, CryptoError>(CryptoError::InvalidFormat) <==> !header_ok(data@),
        header_ok(data@) ==> (r == Err::<String, CryptoError>(CryptoError::HashMismatch)
            <==> !digest_ok(data@)),
        header_ok(data@) && digest_ok(data@) ==> (r == Err::<String, CryptoError>(
            CryptoError::InvalidVersion(data@[3]),
        ) <==> data@[3] != VERSION_UNENCRYPTED && data@[3] != VERSION_ENCRYPTED),
        header_ok(data@) && digest_ok(data@) ==> (r == Err::<String, CryptoError>(
            CryptoError::PasswordRequired,
        ) <==> data@[3] == VERSION_ENCRYPTED && password is None),
        header_ok(data@) && digest_ok(data@) && data@[3] == VERSION_UNENCRYPTED ==> (match
            gunzip_of(xor_seq(payload_of(data@))) {
            Some(z) => if valid_utf8(z) {
                r matches Ok(t) && t@ == decode_utf8(z)
            } else {
                r == Err::<String, CryptoError>(CryptoError::DecompressionFailed)
            },
            None => r == Err::<String, CryptoError>(CryptoError::DecompressionFailed),
        }),
        header_ok(data@) && digest_ok(data@) && data@[3] == VERSION_ENCRYPTED ==> (password
            matches Some(pw) ==> ({
            let body = xor_seq(payload_of(data@));
            let key = pbkdf2_key_of(encode_utf8(pw@), body.subrange(0, 16), PBKDF2_ITERATIONS);
            if body.len() < 28 {
                r == Err::<String, CryptoError>(CryptoError::DecryptionFailed)
            } else {
                match aes_gcm_open(key, body.subrange(16, 28), body.subrange(
                    28,
                    body.len() as int,
                )) {
                    Some(inner) => match gunzip_of(inner) {
                        Some(z) => if valid_utf8(z) {
                            r matches Ok(t) && t@ == decode_utf8(z)
                        } else {
                            r == Err::<String, CryptoError>(CryptoError::DecompressionFailed)
                        },
                        None => r == Err::<String, CryptoError>(CryptoError::DecompressionFailed),
                    },
                    None => r == Err::<String, CryptoError>(CryptoError::InvalidPassword),
                }
            }
        })),
        forall|s: Seq<char>| is_plain_pack(data@, s) ==> (r matches Ok(t) && t@ == s),
        (password matches Some(pw) ==> forall|s: Seq<char>|
            is_cipher_pack(data@, s, pw@) ==> (r matches Ok(t) && t@ == s)),
{
    broadcast use lemma_plain_pack_props, lemma_cipher_pack_props;

    if data.len() < 37 {
        return Err(CryptoError::InvalidFormat);
    }
    if !(data[0] == 80 && data[1] == 80 && data[2] == 75) {
        proof {
            assert(data@.subrange(0, 3) != spec_magic()) by {
                if data@.subrange(0, 3) == spec_magic() {
                    assert(data@.subrange(0, 3)[0] == 80u8);
                    assert(data@.subrange(0, 3)[1] == 80u8);
                    assert(data@.subrange(0, 3)[2] == 75u8);
                }
            }
        }
        return Err(CryptoError::InvalidFormat);
    }
    proof {
        assert(data@.subrange(0, 3) =~= spec_magic());
    }
    let version = data[3];
    let stored_hash = slice_subrange(data, 4, 36);
    let payload = slice_subrange(data, 36, data.len());
    let computed_hash = sha256_digest(payload);
    if !bytes_eq(computed_hash.as_slice(), stored_hash) {
        return Err(CryptoError::HashMismatch);
    }
    let deobfuscated = xor_obfuscate(payload);
    if version == VERSION_UNENCRYPTED {
        let decompressed = match decompress(deobfuscated.as_slice()) {
            Ok(d) => d,
            Err(e) => {
                return Err(e);
            },
        };
        match string_from_utf8(decompressed) {
            Some(text) => Ok(text),
            None => Err(CryptoError::DecompressionFailed),
        }
    } else if version == VERSION_ENCRYPTED {
        let pwd = match password {
            Some(p) => p,
            None => {
                return Err(CryptoError::PasswordRequired);
            },
        };
        let decrypted = match decrypt_aes(deobfuscated.as_slice(), pwd) {
            Ok(d) => d,
            Err(e) => {
                return Err(e);
            },
        };
        let decompressed = match decompress(decrypted.as_slice()) {
            Ok(d) => d,
            Err(e) => {
                return Err(e);
            },
        };
        match string_from_utf8(decompressed) {
            Some(text) => Ok(text),
            None => Err(CryptoError::DecompressionFailed),
        }
    } else {
        Err(CryptoError::InvalidVersion(version))
    }
}

/// Report whether a pack file is encrypted, from its header alone.
pub fn is_encrypted(data: &[u8]) -> (r: Result<bool, CryptoError>)
    ensures
        r is Ok <==> data@.len() >= 4 && data@.subrange(0, 3) == spec_magic(),
        r matches Ok(b) ==> (b <==> data@[3] == VERSION_ENCRYPTED),
        r matches Err(e) ==> e == CryptoError::InvalidFormat,
{
    if data.len() < 4 {
        return Err(CryptoError::InvalidFormat);
    }
    if !(data[0] == 80 && data[1] == 80 && data[2] == 75) {
        proof {
            assert(data@.subrange(0, 3) != spec_magic()) by {
                if data@.subrange(0, 3) == spec_magic() {
                    assert(data@.subrange(0, 3)[0] == 80u8);
                    assert(data@.subrange(0, 3)[1] == 80u8);
                    assert(data@.subrange(0, 3)[2] == 75u8);
                }
            }
        }
        return Err(CryptoError::InvalidFormat);
    }
    proof {
        assert(data@.subrange(0, 3) =~= spec_magic());
    }
    Ok(data[3] == VERSION_ENCRYPTED)
}

} // verus!
