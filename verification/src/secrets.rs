use vstd::prelude::*;
use vstd::utf8::{decode_utf8, encode_utf8, encode_utf8_decode_utf8, encode_utf8_valid_utf8, valid_utf8};
use crate::crypto::{aes_blob_open, aes_max_plain};
use crate::error::{AppResult, ErrorKind};
use crate::security::{decrypt_secret, encrypt_secret, is_master, SecretOutcome};
use vstd::string::StringSliceAdditionalSpecFns;

verus! {

/// What `String::from_utf8_lossy` makes of bytes that are not valid UTF-8 (each bad
/// sequence becomes U+FFFD).
pub uninterp spec fn utf8_lossy_invalid(bytes: Seq<u8>) -> Seq<char>;

/// The text `String::from_utf8_lossy` reads from `bytes`: the decoded text when they
/// are valid UTF-8.
pub open spec fn utf8_lossy_spec(bytes: Seq<u8>) -> Seq<char> {
    if valid_utf8(bytes) {
        decode_utf8(bytes)
    } else {
        utf8_lossy_invalid(bytes)
    }
}

/// `String::from_utf8_lossy`: valid UTF-8 is decoded as it stands (its documentation),
/// other input is named.
#[verifier::external_body]
fn utf8_lossy(bytes: &[u8]) -> (r: String)
    ensures
        r@ == (if valid_utf8(bytes@) { decode_utf8(bytes@) } else { utf8_lossy_invalid(bytes@) }),
{
    String::from_utf8_lossy(bytes).into_owned()
}

/// The text of decrypted secret bytes (invalid UTF-8 is replaced, not refused).
pub fn secret_text(plain: &[u8]) -> (r: String)
    ensures
        r@ == utf8_lossy_spec(plain@),
{
    utf8_lossy(plain)
}

/// What is written to the store for a secret.
#[derive(Debug)]
pub enum SecretToStore {
    /// no secret: the column stays empty
    Nothing,
    /// sealed under the master key
    Sealed(Vec<u8>),
    /// these plaintext bytes go to the system protector (DPAPI) first
    ForSystem(Vec<u8>),
}

/// A secret is stored only when given and not empty.
pub open spec fn has_secret(secret: Option<String>) -> bool {
    secret matches Some(s) && s@.len() > 0
}

/// Protect a new secret for storage in the current mode: nothing when none (or an empty
/// one) is given; under the master key in master mode (refused while locked); for the
/// system protector otherwise.
pub fn secret_to_store(secret: &Option<String>, mode: &str, master_key: &Option<[u8; 32]>) -> (r: AppResult<SecretToStore>)
    ensures
        !has_secret(*secret) ==> r matches Ok(SecretToStore::Nothing),
        has_secret(*secret) && !is_master(mode@) ==> (r matches Ok(SecretToStore::ForSystem(p))
            && p@ == encode_utf8(secret.unwrap()@)),
        has_secret(*secret) && is_master(mode@) && master_key is None ==> (r matches Err(e)
            && e.kind == ErrorKind::Locked
            && e.message@ == "Секреты заблокированы — введите мастер-пароль"@),
        has_secret(*secret) && is_master(mode@) && master_key is Some ==> (
            (r is Ok <==> encode_utf8(secret.unwrap()@).len() <= aes_max_plain())
            && (r matches Ok(x) ==> (x matches SecretToStore::Sealed(b)
                && aes_blob_open(master_key.unwrap()@, b@) == Some(encode_utf8(secret.unwrap()@))))),
{
    match secret {
        Some(s) => {
            if s.unicode_len() == 0 {
                return Ok(SecretToStore::Nothing);
            }
            let bytes = s.as_str().as_bytes();
            match encrypt_secret(mode, master_key, bytes) {
                Ok(SecretOutcome::Done(b)) => Ok(SecretToStore::Sealed(b)),
                Ok(SecretOutcome::UseSystemProtector) => {
                    let mut v: Vec<u8> = Vec::new();
                    let mut k: usize = 0;
                    while k < bytes.len()
                        invariant
                            k <= bytes@.len(),
                            v@ == bytes@.subrange(0, k as int),
                        decreases bytes@.len() - k,
                    {
                        v.push(bytes[k]);
                        proof {
                            assert(v@ =~= bytes@.subrange(0, k + 1));
                        }
                        k = k + 1;
                    }
                    proof {
                        assert(bytes@.subrange(0, bytes@.len() as int) =~= bytes@);
                    }
                    Ok(SecretToStore::ForSystem(v))
                },
                Err(e) => Err(e),
            }
        },
        None => Ok(SecretToStore::Nothing),
    }
}

/// What editing a credential does to its stored secret.
#[derive(Debug)]
pub enum SecretChange {
    /// no secret given: the stored one stays
    Keep,
    /// an empty secret given: the stored one is removed
    Clear,
    /// a new secret given
    Store(SecretToStore),
}

/// The change an edit makes to a credential's secret: none given keeps it, an empty
/// one clears it, any other replaces it (protected as `secret_to_store` says).
pub fn secret_change(secret: &Option<String>, mode: &str, master_key: &Option<[u8; 32]>) -> (r: AppResult<SecretChange>)
    ensures
        secret is None ==> r matches Ok(SecretChange::Keep),
        (secret matches Some(s) && s@.len() == 0) ==> r matches Ok(SecretChange::Clear),
        has_secret(*secret) && !is_master(mode@) ==> (r matches Ok(SecretChange::Store(SecretToStore::ForSystem(p)))
            && p@ == encode_utf8(secret.unwrap()@)),
        has_secret(*secret) && is_master(mode@) && master_key is None ==> (r matches Err(e)
            && e.kind == ErrorKind::Locked
            && e.message@ == "Секреты заблокированы — введите мастер-пароль"@),
        has_secret(*secret) && is_master(mode@) && master_key is Some ==> (
            (r is Ok <==> encode_utf8(secret.unwrap()@).len() <= aes_max_plain())
            && (r matches Ok(x) ==> (x matches SecretChange::Store(SecretToStore::Sealed(b))
                && aes_blob_open(master_key.unwrap()@, b@) == Some(encode_utf8(secret.unwrap()@))))),
{
    match secret {
        None => Ok(SecretChange::Keep),
        Some(s) => {
            if s.unicode_len() == 0 {
                return Ok(SecretChange::Clear);
            }
            match secret_to_store(secret, mode, master_key) {
                Ok(x) => Ok(SecretChange::Store(x)),
                Err(e) => Err(e),
            }
        },
    }
}

/// What reading a stored secret gives.
#[derive(Debug)]
pub enum SecretRead {
    /// no secret is stored
    Empty,
    /// the secret's text
    Text(String),
    /// this blob must be opened by the system protector (DPAPI), then read with
    /// `secret_text`
    ForSystem(Vec<u8>),
}

/// The text a sealed blob reads as under `key`, if the key opens it.
pub open spec fn read_text_spec(key: Seq<u8>, blob: Seq<u8>) -> Option<Seq<char>> {
    match aes_blob_open(key, blob) {
        Some(p) => Some(utf8_lossy_spec(p)),
        None => None,
    }
}

/// Read a stored secret in the current mode: an absent or empty blob is no secret; in
/// master mode the master key opens it (refused while locked, an error when the key does
/// not open it); otherwise it goes to the system protector.
pub fn read_secret(blob: &Option<Vec<u8>>, mode: &str, master_key: &Option<[u8; 32]>) -> (r: AppResult<SecretRead>)
    ensures
        (blob is None || (blob matches Some(b) && b@.len() == 0)) ==> r matches Ok(SecretRead::Empty),
        (blob matches Some(b) && b@.len() > 0) ==> {
            let b = blob.unwrap();
            &&& !is_master(mode@) ==> (r matches Ok(SecretRead::ForSystem(c)) && c@ == b@)
            &&& is_master(mode@) && master_key is None ==> (r matches Err(e) && e.kind == ErrorKind::Locked
            && e.message@ == "Секреты заблокированы — введите мастер-пароль"@)
            &&& is_master(mode@) && master_key is Some ==> match read_text_spec(master_key.unwrap()@, b@) {
                Some(t) => r matches Ok(SecretRead::Text(x)) && x@ == t,
                None => r matches Err(e) && e.kind == ErrorKind::Internal,
            }
        },
{
    match blob {
        None => Ok(SecretRead::Empty),
        Some(b) => {
            if b.len() == 0 {
                return Ok(SecretRead::Empty);
            }
            match decrypt_secret(mode, master_key, b.as_slice()) {
                Ok(SecretOutcome::Done(p)) => Ok(SecretRead::Text(utf8_lossy(p.as_slice()))),
                Ok(SecretOutcome::UseSystemProtector) => Ok(SecretRead::ForSystem(b.clone())),
                Err(e) => Err(e),
            }
        },
    }
}

/// In master mode a secret reads back as it was written: the blob that `secret_to_store`
/// seals for a secret is read by `read_secret` under the same key as that same text.
pub proof fn law_secret_readback(key: Seq<u8>, secret: Seq<char>, blob: Seq<u8>)
    requires
        aes_blob_open(key, blob) == Some(encode_utf8(secret)),
    ensures
        read_text_spec(key, blob) == Some(secret),
{
    encode_utf8_valid_utf8(secret);
    encode_utf8_decode_utf8(secret);
}

} // verus!
