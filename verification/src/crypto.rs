use vstd::prelude::*;
use aes_gcm::aead::{Aead, AeadCore, KeyInit};
use aes_gcm::{Aes256Gcm, Key, Nonce};
use argon2::Argon2;
use rand::rngs::OsRng;
use rand::RngCore;
use crate::error::{AppError, AppResult, ErrorKind};
use crate::text::concat2;
use vstd::string::StringSliceAdditionalSpecFns;

verus! {

/// The 32-byte key that Argon2id with the crate's default parameters derives from a
/// password and a salt.
pub uninterp spec fn argon2id_key(password: Seq<u8>, salt: Seq<u8>) -> Seq<u8>;

/// AES-256-GCM ciphertext (with its 16-byte tag appended) of `plain` under `key` and the
/// 12-byte `nonce`, with no associated data.
pub uninterp spec fn aes256gcm_seal(key: Seq<u8>, nonce: Seq<u8>, plain: Seq<u8>) -> Seq<u8>;

/// The plaintext of an AES-256-GCM ciphertext-and-tag under `key` and `nonce`, or none
/// when the tag does not authenticate it.
pub uninterp spec fn aes256gcm_open(key: Seq<u8>, nonce: Seq<u8>, sealed: Seq<u8>) -> Option<Seq<u8>>;

/// The largest plaintext AES-GCM accepts (2^36 bytes).
pub open spec fn aes_max_plain() -> int {
    0x10_0000_0000
}

/// `Argon2::default().hash_password_into` with a 32-byte output. The source checks the
/// lengths first (password at most 2^32-1 bytes, salt between 8 and 2^32-1 bytes) and
/// then cannot fail; the key is a function of password and salt alone. The message of an
/// error is the crate's own text and is not stated.
#[verifier::external_body]
fn argon2_hash32(password: &[u8], salt: &[u8]) -> (r: Result<[u8; 32], String>)
    ensures
        r is Ok <==> (8 <= salt@.len() <= 0xFFFF_FFFF && password@.len() <= 0xFFFF_FFFF),
        r matches Ok(k) ==> k@ == argon2id_key(password@, salt@),
{
    let mut key = [0u8; 32];
    match Argon2::default().hash_password_into(password, salt, &mut key) {
        Ok(()) => Ok(key),
        Err(e) => Err(e.to_string()),
    }
}

/// `Aes256Gcm::encrypt` without associated data. It fails only for a plaintext longer
/// than 2^36 bytes; the ciphertext is the plaintext's length plus the 16-byte tag, and
/// `Aes256Gcm::decrypt` with the same key and nonce gives the plaintext back (both apply
/// the same counter-mode keystream and compute the same tag over the ciphertext).
#[verifier::external_body]
fn aes_seal(key: &[u8; 32], nonce: &[u8; 12], plain: &[u8]) -> (r: Option<Vec<u8>>)
    ensures
        r is Some <==> plain@.len() <= aes_max_plain(),
        r matches Some(c) ==> c@ == aes256gcm_seal(key@, nonce@, plain@) && c@.len() == plain@.len()
            + 16 && aes256gcm_open(key@, nonce@, c@) == Some(plain@),
{
    let cipher = Aes256Gcm::new(Key::<Aes256Gcm>::from_slice(key));
    cipher.encrypt(Nonce::from_slice(nonce), plain).ok()
}

/// `Aes256Gcm::decrypt` without associated data: the plaintext, or none when the tag
/// does not authenticate the ciphertext (including one shorter than the tag).
#[verifier::external_body]
fn aes_open(key: &[u8; 32], nonce: &[u8], sealed: &[u8]) -> (r: Option<Vec<u8>>)
    requires
        nonce@.len() == 12,
    ensures
        match r {
            Some(p) => aes256gcm_open(key@, nonce@, sealed@) == Some(p@),
            None => aes256gcm_open(key@, nonce@, sealed@) is None,
        },
{
    let cipher = Aes256Gcm::new(Key::<Aes256Gcm>::from_slice(key));
    cipher.decrypt(Nonce::from_slice(nonce), sealed).ok()
}

/// `Aes256Gcm::generate_nonce` from the operating system's random source. Nothing is
/// stated of the bytes.
#[verifier::external_body]
fn random_nonce() -> (n: [u8; 12]) {
    Aes256Gcm::generate_nonce(&mut OsRng).into()
}

/// 16 random bytes of salt from the operating system (`OsRng::fill_bytes`). Nothing is
/// stated of the bytes.
#[verifier::external_body]
pub fn random_salt() -> (s: [u8; 16]) {
    let mut s = [0u8; 16];
    OsRng.fill_bytes(&mut s);
    s
}

/// Argon2id (default parameters): password and salt to a 32-byte key.
pub fn derive_key(password: &str, salt: &[u8]) -> (r: AppResult<[u8; 32]>)
    ensures
        r is Ok <==> (8 <= salt@.len() <= 0xFFFF_FFFF && password.spec_bytes().len() <= 0xFFFF_FFFF),
        r matches Ok(k) ==> k@ == argon2id_key(password.spec_bytes(), salt@),
        r matches Err(e) ==> e.kind == ErrorKind::Internal,
{
    match argon2_hash32(password.as_bytes(), salt) {
        Ok(k) => Ok(k),
        Err(msg) => Err(AppError::with_message(ErrorKind::Internal, concat2("argon2: ", msg.as_str()))),
    }
}

/// The plaintext a stored blob `nonce(12) || ciphertext` holds under `key`.
pub open spec fn aes_blob_open(key: Seq<u8>, blob: Seq<u8>) -> Option<Seq<u8>> {
    if blob.len() < 12 {
        None
    } else {
        aes256gcm_open(key, blob.subrange(0, 12), blob.subrange(12, blob.len() as int))
    }
}

/// AES-256-GCM with a fresh random nonce: `nonce(12) || ciphertext`.
pub fn aes_encrypt(key: &[u8; 32], plain: &[u8]) -> (r: AppResult<Vec<u8>>)
    ensures
        r is Ok <==> plain@.len() <= aes_max_plain(),
        r matches Ok(b) ==> b@.len() == 12 + plain@.len() + 16 && b@.subrange(12, b@.len() as int)
            == aes256gcm_seal(key@, b@.subrange(0, 12), plain@) && aes_blob_open(key@, b@)
            == Some(plain@),
        r matches Err(e) ==> e.kind == ErrorKind::Internal && e.message@ == "aes encrypt"@,
{
    let nonce = random_nonce();
    match aes_seal(key, &nonce, plain) {
        None => Err(AppError::internal("aes encrypt")),
        Some(ct) => {
            let mut out: Vec<u8> = Vec::new();
            let mut k: usize = 0;
            while k < 12
                invariant
                    k <= 12,
                    out@ == nonce@.subrange(0, k as int),
                decreases 12 - k,
            {
                out.push(nonce[k]);
                proof {
                    assert(out@ =~= nonce@.subrange(0, k + 1));
                }
                k = k + 1;
            }
            let mut ct = ct;
            let ghost sealed = ct@;
            out.append(&mut ct);
            proof {
                assert(nonce@.subrange(0, 12) =~= nonce@);
                assert(out@.subrange(0, 12) =~= nonce@);
                assert(out@.subrange(12, out@.len() as int) =~= sealed);
            }
            Ok(out)
        },
    }
}

/// Decrypt a stored blob `nonce(12) || ciphertext`.
pub fn aes_decrypt(key: &[u8; 32], blob: &[u8]) -> (r: AppResult<Vec<u8>>)
    ensures
        match aes_blob_open(key@, blob@) {
            Some(p) => r matches Ok(q) && q@ == p,
            None => r is Err,
        },
        r matches Err(e) ==> e.kind == ErrorKind::Internal && (if blob@.len() < 12 {
            e.message@ == "aes blob too short"@
        } else {
            e.message@ == "aes decrypt (неверный ключ?)"@
        }),
{
    if blob.len() < 12 {
        return Err(AppError::internal("aes blob too short"));
    }
    let (n, ct) = blob.split_at(12);
    match aes_open(key, n, ct) {
        Some(p) => Ok(p),
        None => Err(AppError::internal("aes decrypt (неверный ключ?)")),
    }
}

/// What AES-256-GCM encryption produces, decryption with the same key gives back.
pub proof fn law_aes_roundtrip(key: Seq<u8>, nonce: Seq<u8>, plain: Seq<u8>, blob: Seq<u8>)
    requires
        nonce.len() == 12,
        aes256gcm_open(key, nonce, aes256gcm_seal(key, nonce, plain)) == Some(plain),
        blob == nonce + aes256gcm_seal(key, nonce, plain),
    ensures
        aes_blob_open(key, blob) == Some(plain),
{
    assert(blob.subrange(0, 12) =~= nonce);
    assert(blob.subrange(12, blob.len() as int) =~= aes256gcm_seal(key, nonce, plain));
}

} // verus!
