use vstd::prelude::*;
use crate::crypto::{aes256gcm_open, aes_blob_open, aes_decrypt, aes_encrypt, aes_max_plain, argon2id_key, derive_key};
use crate::error::{AppError, AppResult, ErrorKind};
use crate::hexcodec::{hex_decode, hex_decode_spec, hex_encode, hex_lower, law_hex_roundtrip};
use crate::models::CryptoStatus;
use crate::text::{bytes_equal, str_equal, trim, trim_str};
use vstd::string::StringSliceAdditionalSpecFns;

verus! {

/// The bytes of `devdeck-master-verify-v1`: the text encrypted under the master key to
/// recognise the right password.
pub open spec fn verify_token() -> Seq<u8> {
    seq![
        100u8, 101, 118, 100, 101, 99, 107, 45, 109, 97, 115, 116, 101, 114, 45, 118, 101, 114,
        105, 102, 121, 45, 118, 49,
    ]
}

/// The verification text `devdeck-master-verify-v1`.
pub fn verify_token_bytes() -> (v: Vec<u8>)
    ensures
        v@ == verify_token(),
{
    let mut v: Vec<u8> = Vec::new();
    v.push(100); v.push(101); v.push(118); v.push(100); v.push(101); v.push(99);
    v.push(107); v.push(45); v.push(109); v.push(97); v.push(115); v.push(116);
    v.push(101); v.push(114); v.push(45); v.push(118); v.push(101); v.push(114);
    v.push(105); v.push(102); v.push(121); v.push(45); v.push(118); v.push(49);
    proof {
        assert(v@ =~= verify_token());
    }
    v
}

/// The protection mode named by the stored `crypto_mode` setting: `dpapi` unless set.
pub open spec fn mode_spec(setting: Option<Seq<char>>) -> Seq<char> {
    match setting {
        Some(m) => m,
        None => "dpapi"@,
    }
}

/// The current protection mode from the stored setting (a read error counts as unset).
pub fn current_mode(setting: Option<String>) -> (m: String)
    ensures
        m@ == mode_spec(match setting {
            Some(s) => Some(s@),
            None => None,
        }),
{
    match setting {
        Some(s) => s,
        None => String::from_str("dpapi"),
    }
}

/// The mode is the master-password mode.
pub open spec fn is_master(mode: Seq<char>) -> bool {
    mode == "master"@
}

/// Whether the mode is the master-password mode.
pub fn mode_is_master(mode: &str) -> (b: bool)
    ensures
        b == is_master(mode@),
{
    str_equal(mode, "master")
}

/// The error for a secret that cannot be reached while the master key is not in memory.
pub fn locked() -> (e: AppError)
    ensures
        e.kind == ErrorKind::Locked,
        e.message@ == "Секреты заблокированы — введите мастер-пароль"@,
{
    AppError::new(ErrorKind::Locked, "Секреты заблокированы — введите мастер-пароль")
}

/// The mode and whether secrets are locked: only the master mode locks, while no key is
/// in memory.
pub fn crypto_status(mode: String, key_in_memory: bool) -> (s: CryptoStatus)
    ensures
        s.mode@ == mode@,
        s.locked == (is_master(mode@) && !key_in_memory),
{
    let locked = if mode_is_master(mode.as_str()) { !key_in_memory } else { false };
    CryptoStatus { mode, locked }
}

/// What becomes of a secret: done here under the master key, or to be handed to the
/// system protector (DPAPI) of the user's account.
#[derive(Debug)]
pub enum SecretOutcome {
    Done(Vec<u8>),
    UseSystemProtector,
}

/// Protect a secret in the current mode: AES-256-GCM under the master key in master mode
/// (locked without a key), the system protector otherwise.
pub fn encrypt_secret(mode: &str, master_key: &Option<[u8; 32]>, plain: &[u8]) -> (r: AppResult<SecretOutcome>)
    ensures
        !is_master(mode@) ==> r matches Ok(SecretOutcome::UseSystemProtector),
        is_master(mode@) && master_key is None ==> (r matches Err(e) && e.kind == ErrorKind::Locked
            && e.message@ == "Секреты заблокированы — введите мастер-пароль"@),
        is_master(mode@) && master_key is Some ==> (r is Ok <==> plain@.len() <= aes_max_plain()),
        r matches Ok(SecretOutcome::Done(b)) ==> is_master(mode@) && master_key is Some
            && aes_blob_open(master_key.unwrap()@, b@) == Some(plain@),
        is_master(mode@) && r is Ok ==> r matches Ok(SecretOutcome::Done(_)),
{
    if mode_is_master(mode) {
        match master_key {
            None => Err(locked()),
            Some(k) => match aes_encrypt(k, plain) {
                Ok(b) => Ok(SecretOutcome::Done(b)),
                Err(e) => Err(e),
            },
        }
    } else {
        Ok(SecretOutcome::UseSystemProtector)
    }
}

/// Recover a secret in the current mode: AES-256-GCM under the master key in master mode
/// (locked without a key), the system protector otherwise.
pub fn decrypt_secret(mode: &str, master_key: &Option<[u8; 32]>, blob: &[u8]) -> (r: AppResult<SecretOutcome>)
    ensures
        !is_master(mode@) ==> r matches Ok(SecretOutcome::UseSystemProtector),
        is_master(mode@) && master_key is None ==> (r matches Err(e) && e.kind == ErrorKind::Locked
            && e.message@ == "Секреты заблокированы — введите мастер-пароль"@),
        is_master(mode@) && master_key is Some ==> match aes_blob_open(master_key.unwrap()@, blob@) {
            Some(p) => r matches Ok(SecretOutcome::Done(q)) && q@ == p,
            None => r matches Err(e) && e.kind == ErrorKind::Internal,
        },
{
    if mode_is_master(mode) {
        match master_key {
            None => Err(locked()),
            Some(k) => match aes_decrypt(k, blob) {
                Ok(p) => Ok(SecretOutcome::Done(p)),
                Err(e) => Err(e),
            },
        }
    } else {
        Ok(SecretOutcome::UseSystemProtector)
    }
}

/// The number of bytes UTF-8 uses for `c`.
pub open spec fn utf8_width(c: char) -> nat {
    if (c as u32) < 0x80 {
        1
    } else if (c as u32) < 0x800 {
        2
    } else if (c as u32) < 0x10000 {
        3
    } else {
        4
    }
}

/// The number of bytes of `s` in UTF-8 (`str::len`).
pub open spec fn utf8_len(s: Seq<char>) -> nat
    decreases s.len(),
{
    if s.len() == 0 {
        0
    } else {
        utf8_len(s.drop_last()) + utf8_width(s.last())
    }
}

/// The number of UTF-8 bytes of `password` once trimmed.
pub open spec fn trimmed_byte_len(password: Seq<char>) -> nat {
    utf8_len(trim(password))
}

proof fn lemma_utf8_len_monotone(s: Seq<char>, k: int)
    requires
        0 <= k <= s.len(),
    ensures
        utf8_len(s.subrange(0, k)) <= utf8_len(s),
    decreases s.len() - k,
{
    if k < s.len() {
        lemma_utf8_len_monotone(s, k + 1);
        let t = s.subrange(0, k + 1);
        assert(t.drop_last() =~= s.subrange(0, k));
    } else {
        assert(s.subrange(0, k) =~= s);
    }
}

/// Whether `s` takes at least `n` bytes in UTF-8 (`s.len() >= n`).
fn utf8_len_at_least(s: &str, n: u8) -> (b: bool)
    ensures
        b == (utf8_len(s@) >= n),
{
    if n == 0 {
        return true;
    }
    let len = s.unicode_len();
    let mut total: u32 = 0;
    let mut k: usize = 0;
    while k < len
        invariant
            len == s@.len(),
            k <= len,
            total == utf8_len(s@.subrange(0, k as int)),
            total < n,
        decreases len - k,
    {
        let c = s.get_char(k);
        let w: u32 = if (c as u32) < 0x80 {
            1
        } else if (c as u32) < 0x800 {
            2
        } else if (c as u32) < 0x10000 {
            3
        } else {
            4
        };
        proof {
            let t = s@.subrange(0, k + 1);
            assert(t.drop_last() =~= s@.subrange(0, k as int));
            assert(t.last() == c);
        }
        if total + w >= n as u32 {
            proof {
                lemma_utf8_len_monotone(s@, k + 1);
            }
            return true;
        }
        total = total + w;
        k = k + 1;
    }
    proof {
        assert(s@.subrange(0, len as int) =~= s@);
    }
    false
}

/// Enabling the master password needs a password of at least four bytes (trimmed) and a
/// mode that is not master already.
pub fn check_master_enable(password: &str, mode: &str) -> (r: AppResult<()>)
    ensures
        r is Ok <==> (trimmed_byte_len(password@) >= 4 && !is_master(mode@)),
        trimmed_byte_len(password@) < 4 ==> (r matches Err(e) && e.kind == ErrorKind::Validation
            && e.message@ == "Пароль слишком короткий (мин. 4)"@),
        trimmed_byte_len(password@) >= 4 && is_master(mode@) ==> (r matches Err(e) && e.kind
            == ErrorKind::Validation && e.message@ == "Мастер-пароль уже включён"@),
{
    let t = trim_str(password);
    if !utf8_len_at_least(t, 4) {
        return Err(AppError::new(ErrorKind::Validation, "Пароль слишком короткий (мин. 4)"));
    }
    if mode_is_master(mode) {
        return Err(AppError::new(ErrorKind::Validation, "Мастер-пароль уже включён"));
    }
    Ok(())
}

/// Disabling the master password needs the master mode.
pub fn check_master_disable(mode: &str) -> (r: AppResult<()>)
    ensures
        r is Ok <==> is_master(mode@),
        r matches Err(e) ==> e.kind == ErrorKind::Validation && e.message@
            == "Мастер-пароль не включён"@,
{
    if !mode_is_master(mode) {
        return Err(AppError::new(ErrorKind::Validation, "Мастер-пароль не включён"));
    }
    Ok(())
}

/// The settings stored when the master password is enabled: the salt and the encrypted
/// verification text, both in hex.
#[derive(Debug)]
pub struct MasterSettings {
    pub salt_hex: String,
    pub verifier_hex: String,
}

/// `salt_hex` and `verifier_hex` are the settings of `key` made with `salt`.
pub open spec fn settings_for(key: Seq<u8>, salt: Seq<u8>, salt_hex: Seq<char>, verifier_hex: Seq<char>) -> bool {
    &&& salt_hex == hex_lower(salt)
    &&& hex_decode_spec(verifier_hex) matches Some(vb) && aes_blob_open(key, vb) == Some(verify_token())
}

/// The settings to store for a new master key: hex of the salt, hex of the verification
/// text encrypted under the key.
pub fn master_settings(key: &[u8; 32], salt: &[u8; 16]) -> (r: AppResult<MasterSettings>)
    ensures
        r matches Ok(s) ==> settings_for(key@, salt@, s.salt_hex@, s.verifier_hex@),
        r is Ok,
{
    let token = verify_token_bytes();
    let blob = aes_encrypt(key, token.as_slice())?;
    let salt_hex = hex_encode(salt.as_slice());
    let verifier_hex = hex_encode(blob.as_slice());
    proof {
        law_hex_roundtrip(blob@);
    }
    Ok(MasterSettings { salt_hex, verifier_hex })
}

/// Argon2 accepts the lengths of this password and salt.
pub open spec fn kdf_accepts(password: Seq<u8>, salt: Seq<u8>) -> bool {
    8 <= salt.len() <= 0xFFFF_FFFF && password.len() <= 0xFFFF_FFFF
}

/// The outcome of checking a master password against the stored settings: the key when
/// the verification text decrypts under the key derived from the password; otherwise the
/// kind of the error (missing or malformed settings and key derivation failures are
/// internal errors, a wrong password a validation error).
pub open spec fn unlock_spec(salt_hex: Option<Seq<char>>, verifier_hex: Option<Seq<char>>, password: Seq<u8>) -> Result<Seq<u8>, ErrorKind> {
    match (salt_hex, verifier_hex) {
        (Some(sh), Some(vh)) => match hex_decode_spec(sh) {
            Some(salt) => match hex_decode_spec(vh) {
                Some(vb) => if !kdf_accepts(password, salt) {
                    Err(ErrorKind::Internal)
                } else if aes_blob_open(argon2id_key(password, salt), vb) == Some(verify_token()) {
                    Ok(argon2id_key(password, salt))
                } else {
                    Err(ErrorKind::Validation)
                },
                None => Err(ErrorKind::Internal),
            },
            None => Err(ErrorKind::Internal),
        },
        _ => Err(ErrorKind::Internal),
    }
}

/// The view of an optional string slice.
pub open spec fn opt_view(o: Option<&str>) -> Option<Seq<char>> {
    match o {
        Some(s) => Some(s@),
        None => None,
    }
}

/// Check a master password against the stored salt and verifier; the derived key when
/// it is right.
pub fn verify_password(salt_hex: Option<&str>, verifier_hex: Option<&str>, password: &str) -> (r: AppResult<[u8; 32]>)
    ensures
        match unlock_spec(opt_view(salt_hex), opt_view(verifier_hex), password.spec_bytes()) {
            Ok(k) => r matches Ok(x) && x@ == k,
            Err(kind) => r matches Err(e) && e.kind == kind,
        },
        r matches Err(e) ==> (e.kind == ErrorKind::Validation ==> e.message@ == "Неверный мастер-пароль"@),
{
    let sh = match salt_hex {
        Some(s) => s,
        None => return Err(AppError::internal("нет соли")),
    };
    let vh = match verifier_hex {
        Some(v) => v,
        None => return Err(AppError::internal("нет verifier")),
    };
    let salt = match hex_decode(sh) {
        Some(s) => s,
        None => return Err(AppError::internal("плохая соль")),
    };
    let verifier = match hex_decode(vh) {
        Some(v) => v,
        None => return Err(AppError::internal("плохой verifier")),
    };
    let key = derive_key(password, salt.as_slice())?;
    let token = verify_token_bytes();
    match aes_decrypt(&key, verifier.as_slice()) {
        Ok(v) => {
            if bytes_equal(v.as_slice(), token.as_slice()) {
                Ok(key)
            } else {
                Err(AppError::new(ErrorKind::Validation, "Неверный мастер-пароль"))
            }
        },
        Err(_) => Err(AppError::new(ErrorKind::Validation, "Неверный мастер-пароль")),
    }
}

/// Once the master password is enabled, the same password unlocks: checking it against
/// the stored settings gives back the key they were made with.
pub proof fn law_enable_then_unlock(password: Seq<u8>, salt: Seq<u8>, salt_hex: Seq<char>, verifier_hex: Seq<char>)
    requires
        kdf_accepts(password, salt),
        settings_for(argon2id_key(password, salt), salt, salt_hex, verifier_hex),
    ensures
        unlock_spec(Some(salt_hex), Some(verifier_hex), password) == Ok::<Seq<u8>, ErrorKind>(argon2id_key(password, salt)),
{
    law_hex_roundtrip(salt);
}

/// Every item's secret, encrypted under `key`, in order and with the same ids.
pub open spec fn sealed_all(key: Seq<u8>, plains: Seq<(i64, Vec<u8>)>, blobs: Seq<(i64, Vec<u8>)>) -> bool {
    &&& blobs.len() == plains.len()
    &&& forall|i: int| 0 <= i < plains.len() ==> #[trigger] blobs[i].0 == plains[i].0
        && aes_blob_open(key, blobs[i].1@) == Some(plains[i].1@)
}

/// Encrypt every `(id, secret)` under the master key, in order; fails (and nothing is
/// to be written) if any secret is too long.
pub fn seal_all(key: &[u8; 32], plains: &Vec<(i64, Vec<u8>)>) -> (r: AppResult<Vec<(i64, Vec<u8>)>>)
    ensures
        r is Ok <==> forall|i: int| 0 <= i < plains@.len() ==> #[trigger] plains@[i].1@.len() <= aes_max_plain(),
        r matches Ok(out) ==> sealed_all(key@, plains@, out@),
{
    let mut out: Vec<(i64, Vec<u8>)> = Vec::new();
    let n = plains.len();
    let mut k: usize = 0;
    while k < n
        invariant
            n == plains@.len(),
            k <= n,
            sealed_all(key@, plains@.subrange(0, k as int), out@),
            forall|i: int| 0 <= i < k ==> #[trigger] plains@[i].1@.len() <= aes_max_plain(),
        decreases n - k,
    {
        let id = plains[k].0;
        match aes_encrypt(key, plains[k].1.as_slice()) {
            Ok(b) => {
                out.push((id, b));
                proof {
                    assert forall|i: int| 0 <= i < k + 1 implies #[trigger] out@[i].0 == plains@.subrange(0, k + 1)[i].0
                        && aes_blob_open(key@, out@[i].1@) == Some(plains@.subrange(0, k + 1)[i].1@) by {
                        if i < k {
                            assert(plains@.subrange(0, k as int)[i] == plains@[i]);
                        } else {
                            assert(plains@.subrange(0, k + 1)[i] == plains@[k as int]);
                        }
                    }
                }
            },
            Err(e) => {
                return Err(e);
            },
        }
        k = k + 1;
    }
    proof {
        assert(plains@.subrange(0, n as int) =~= plains@);
    }
    Ok(out)
}

/// The secrets held by encrypted items under `key`: none if any does not decrypt.
pub open spec fn unsealed(key: Seq<u8>, blobs: Seq<(i64, Vec<u8>)>, plains: Seq<(i64, Vec<u8>)>) -> bool {
    &&& plains.len() == blobs.len()
    &&& forall|i: int| 0 <= i < blobs.len() ==> #[trigger] plains[i].0 == blobs[i].0
        && aes_blob_open(key, blobs[i].1@) == Some(plains[i].1@)
}

/// Decrypt every `(id, blob)` under the master key, in order; fails if any blob does not
/// decrypt.
pub fn unseal_all(key: &[u8; 32], blobs: &Vec<(i64, Vec<u8>)>) -> (r: AppResult<Vec<(i64, Vec<u8>)>>)
    ensures
        r is Ok <==> forall|i: int| 0 <= i < blobs@.len() ==> #[trigger] aes_blob_open(key@, blobs@[i].1@) is Some,
        r matches Ok(out) ==> unsealed(key@, blobs@, out@),
{
    let mut out: Vec<(i64, Vec<u8>)> = Vec::new();
    let n = blobs.len();
    let mut k: usize = 0;
    while k < n
        invariant
            n == blobs@.len(),
            k <= n,
            unsealed(key@, blobs@.subrange(0, k as int), out@),
            forall|i: int| 0 <= i < k ==> #[trigger] aes_blob_open(key@, blobs@[i].1@) is Some,
        decreases n - k,
    {
        let id = blobs[k].0;
        match aes_decrypt(key, blobs[k].1.as_slice()) {
            Ok(p) => {
                out.push((id, p));
                proof {
                    assert forall|i: int| 0 <= i < k + 1 implies #[trigger] out@[i].0 == blobs@.subrange(0, k + 1)[i].0
                        && aes_blob_open(key@, blobs@.subrange(0, k + 1)[i].1@) == Some(out@[i].1@) by {
                        if i < k {
                            assert(blobs@.subrange(0, k as int)[i] == blobs@[i]);
                        } else {
                            assert(blobs@.subrange(0, k + 1)[i] == blobs@[k as int]);
                        }
                    }
                }
            },
            Err(e) => {
                proof {
                    assert(aes_blob_open(key@, blobs@[k as int].1@) is None);
                }
                return Err(e);
            },
        }
        k = k + 1;
    }
    proof {
        assert(blobs@.subrange(0, n as int) =~= blobs@);
    }
    Ok(out)
}

/// Disabling the master password after enabling it gives every secret back: decrypting
/// what `seal_all` produced yields the same ids and secrets.
pub proof fn law_seal_then_unseal(key: Seq<u8>, plains: Seq<(i64, Vec<u8>)>, blobs: Seq<(i64, Vec<u8>)>, back: Seq<(i64, Vec<u8>)>)
    requires
        sealed_all(key, plains, blobs),
        unsealed(key, blobs, back),
    ensures
        back.len() == plains.len(),
        forall|i: int| 0 <= i < plains.len() ==> #[trigger] back[i].0 == plains[i].0 && back[i].1@ == plains[i].1@,
{
    assert forall|i: int| 0 <= i < plains.len() implies #[trigger] back[i].0 == plains[i].0 && back[i].1@ == plains[i].1@ by {
        assert(blobs[i].0 == plains[i].0);
        assert(back[i].0 == blobs[i].0);
    }
}

} // verus!
