use devdeck::crypto::{aes_decrypt, aes_encrypt, derive_key, random_salt};
use devdeck::error::ErrorKind;

#[test]
fn aes_roundtrip() {
    let key = derive_key("hunter2", b"saltsaltsaltsalt").unwrap();
    let enc = aes_encrypt(&key, b"secret-value").unwrap();
    assert_ne!(&enc[12..], b"secret-value");
    assert_eq!(aes_decrypt(&key, &enc).unwrap(), b"secret-value");
}

#[test]
fn wrong_key_fails() {
    let salt = b"saltsaltsaltsalt";
    let k1 = derive_key("a", salt).unwrap();
    let k2 = derive_key("b", salt).unwrap();
    let enc = aes_encrypt(&k1, b"x").unwrap();
    assert!(aes_decrypt(&k2, &enc).is_err());
}

#[test]
fn derive_is_deterministic() {
    let salt = random_salt();
    assert_eq!(derive_key("p", &salt).unwrap(), derive_key("p", &salt).unwrap());
}

#[test]
fn derive_rejects_short_salt() {
    let e = derive_key("p", b"short").unwrap_err();
    assert_eq!(e.kind, ErrorKind::Internal);
    assert!(e.message.starts_with("argon2: "));
}

#[test]
fn aes_blob_layout_and_errors() {
    let key = [7u8; 32];
    let enc = aes_encrypt(&key, b"abc").unwrap();
    assert_eq!(enc.len(), 12 + 3 + 16);
    let short = aes_decrypt(&key, &enc[..11]).unwrap_err();
    assert_eq!(short.kind, ErrorKind::Internal);
    assert_eq!(short.message, "aes blob too short");
    let mut bad = enc.clone();
    bad[20] ^= 1;
    let e = aes_decrypt(&key, &bad).unwrap_err();
    assert_eq!(e.message, "aes decrypt (неверный ключ?)");
}
