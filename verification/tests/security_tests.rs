use devdeck::crypto::{aes_encrypt, derive_key, random_salt};
use devdeck::error::ErrorKind;
use devdeck::security::{
    check_master_disable, check_master_enable, crypto_status, current_mode, decrypt_secret,
    encrypt_secret, locked, master_settings, seal_all, unseal_all, verify_password, SecretOutcome,
};

#[test]
fn enable_then_verify_password() {
    let salt = random_salt();
    let key = derive_key("pw1234", &salt).unwrap();
    let s = master_settings(&key, &salt).unwrap();
    assert_eq!(s.salt_hex.len(), 32);
    assert!(s.salt_hex.chars().all(|c| c.is_ascii_hexdigit() && !c.is_ascii_uppercase()));
    assert_eq!(
        verify_password(Some(&s.salt_hex), Some(&s.verifier_hex), "pw1234").unwrap(),
        key
    );
    let wrong = verify_password(Some(&s.salt_hex), Some(&s.verifier_hex), "wrong").unwrap_err();
    assert_eq!(wrong.kind, ErrorKind::Validation);
    assert_eq!(wrong.message, "Неверный мастер-пароль");
}

#[test]
fn verify_password_reports_missing_or_bad_settings() {
    let e = verify_password(None, Some("00"), "x").unwrap_err();
    assert_eq!((e.kind, e.message.as_str()), (ErrorKind::Internal, "нет соли"));
    let e = verify_password(Some("00"), None, "x").unwrap_err();
    assert_eq!((e.kind, e.message.as_str()), (ErrorKind::Internal, "нет verifier"));
    let e = verify_password(Some("0g"), Some("00"), "x").unwrap_err();
    assert_eq!((e.kind, e.message.as_str()), (ErrorKind::Internal, "плохая соль"));
    let e = verify_password(Some("abc"), Some("00"), "x").unwrap_err();
    assert_eq!((e.kind, e.message.as_str()), (ErrorKind::Internal, "плохая соль"));
    let e = verify_password(Some("00"), Some("zz"), "x").unwrap_err();
    assert_eq!((e.kind, e.message.as_str()), (ErrorKind::Internal, "плохой verifier"));
    let e = verify_password(Some("0011"), Some("00"), "x").unwrap_err();
    assert_eq!(e.kind, ErrorKind::Internal);
    assert!(e.message.starts_with("argon2: "));
}

#[test]
fn secrets_follow_the_mode() {
    let key = [3u8; 32];
    assert!(matches!(encrypt_secret("dpapi", &None, b"s"), Ok(SecretOutcome::UseSystemProtector)));
    assert!(matches!(decrypt_secret("dpapi", &Some(key), b"s"), Ok(SecretOutcome::UseSystemProtector)));
    let e = encrypt_secret("master", &None, b"s").err().unwrap();
    assert_eq!(e.kind, ErrorKind::Locked);
    let e = decrypt_secret("master", &None, b"s").err().unwrap();
    assert_eq!(e.kind, ErrorKind::Locked);
    assert_eq!(e.message, "Секреты заблокированы — введите мастер-пароль");
    let blob = match encrypt_secret("master", &Some(key), b"my-secret") {
        Ok(SecretOutcome::Done(b)) => b,
        _ => panic!("expected a blob"),
    };
    match decrypt_secret("master", &Some(key), &blob) {
        Ok(SecretOutcome::Done(p)) => assert_eq!(p, b"my-secret"),
        _ => panic!("expected the plaintext"),
    }
    assert_eq!(locked().kind, ErrorKind::Locked);
}

#[test]
fn modes_and_status() {
    assert_eq!(current_mode(None), "dpapi");
    assert_eq!(current_mode(Some("master".to_string())), "master");
    let st = crypto_status("master".to_string(), false);
    assert!(st.locked);
    assert!(!crypto_status("master".to_string(), true).locked);
    assert!(!crypto_status("dpapi".to_string(), false).locked);
}

#[test]
fn enable_and_disable_checks() {
    let e = check_master_enable("  abc  ", "dpapi").unwrap_err();
    assert_eq!(e.message, "Пароль слишком короткий (мин. 4)");
    assert!(check_master_enable("abcd", "dpapi").is_ok());
    // two Cyrillic letters take four bytes
    assert!(check_master_enable("пп", "dpapi").is_ok());
    let e = check_master_enable("abcd", "master").unwrap_err();
    assert_eq!(e.message, "Мастер-пароль уже включён");
    assert!(check_master_disable("master").is_ok());
    let e = check_master_disable("dpapi").unwrap_err();
    assert_eq!((e.kind, e.message.as_str()), (ErrorKind::Validation, "Мастер-пароль не включён"));
}

#[test]
fn seal_then_unseal_gives_secrets_back() {
    let key = [9u8; 32];
    let items = vec![(1i64, b"one".to_vec()), (5i64, b"".to_vec()), (7i64, b"three".to_vec())];
    let sealed = seal_all(&key, &items).unwrap();
    assert_eq!(sealed.iter().map(|p| p.0).collect::<Vec<_>>(), vec![1, 5, 7]);
    let back = unseal_all(&key, &sealed).unwrap();
    assert_eq!(back, items);
    let other = unseal_all(&[1u8; 32], &sealed);
    assert!(other.is_err());
    let _ = aes_encrypt(&key, b"x").unwrap();
}

#[test]
fn enable_reencrypts_and_unlock_decrypts() {
    // what enabling writes: the secrets sealed under the new key and the settings
    let salt = random_salt();
    let key = derive_key("pw1234", &salt).unwrap();
    assert!(check_master_enable("pw1234", "dpapi").is_ok());
    let secrets = vec![(1i64, b"my-secret".to_vec())];
    let sealed = seal_all(&key, &secrets).unwrap();
    assert_ne!(sealed[0].1, b"my-secret".to_vec());
    let s = master_settings(&key, &salt).unwrap();
    // unlocking with the password finds the key, which opens the secrets
    let unlocked = verify_password(Some(&s.salt_hex), Some(&s.verifier_hex), "pw1234").unwrap();
    assert_eq!(unseal_all(&unlocked, &sealed).unwrap(), secrets);
    assert!(verify_password(Some(&s.salt_hex), Some(&s.verifier_hex), "wrong").is_err());
}
