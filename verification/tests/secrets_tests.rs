use devdeck::crypto::derive_key;
use devdeck::error::ErrorKind;
use devdeck::secrets::{read_secret, secret_change, secret_text, secret_to_store, SecretChange, SecretRead, SecretToStore};

fn key() -> [u8; 32] {
    derive_key("pw1234", b"saltsaltsaltsalt").unwrap()
}

#[test]
fn create_stores_encrypted_and_get_secret_decrypts() {
    let k = Some(key());
    let stored = secret_to_store(&Some("super-secret".to_string()), "master", &k).unwrap();
    let blob = match stored {
        SecretToStore::Sealed(b) => b,
        _ => panic!("expected a sealed blob"),
    };
    assert_ne!(&blob[12..blob.len() - 16], b"super-secret");
    match read_secret(&Some(blob), "master", &k).unwrap() {
        SecretRead::Text(t) => assert_eq!(t, "super-secret"),
        _ => panic!("expected text"),
    }
}

#[test]
fn export_import_roundtrip_with_secret() {
    let k = Some(key());
    let stored = secret_to_store(&Some("shh".to_string()), "master", &k).unwrap();
    if let SecretToStore::Sealed(b) = stored {
        assert!(matches!(read_secret(&Some(b), "master", &k).unwrap(), SecretRead::Text(t) if t == "shh"));
    } else {
        panic!("expected a sealed blob");
    }
}

#[test]
fn locked_and_system_modes() {
    let e = secret_to_store(&Some("x".to_string()), "master", &None).err().unwrap();
    assert_eq!(e.kind, ErrorKind::Locked);
    match secret_to_store(&Some("abc".to_string()), "dpapi", &None).unwrap() {
        SecretToStore::ForSystem(p) => assert_eq!(p, b"abc".to_vec()),
        _ => panic!("expected system protection"),
    }
    assert!(matches!(secret_to_store(&Some(String::new()), "master", &None).unwrap(), SecretToStore::Nothing));
    assert!(matches!(secret_to_store(&None, "master", &None).unwrap(), SecretToStore::Nothing));
    let e = read_secret(&Some(vec![1, 2, 3]), "master", &None).err().unwrap();
    assert_eq!(e.kind, ErrorKind::Locked);
    assert!(matches!(read_secret(&Some(vec![]), "master", &None).unwrap(), SecretRead::Empty));
}

#[test]
fn wrong_key_cannot_read() {
    let stored = secret_to_store(&Some("x".to_string()), "master", &Some(key())).unwrap();
    if let SecretToStore::Sealed(b) = stored {
        let other = Some(derive_key("other", b"saltsaltsaltsalt").unwrap());
        let e = read_secret(&Some(b), "master", &other).err().unwrap();
        assert_eq!(e.kind, ErrorKind::Internal);
    } else {
        panic!("expected a sealed blob");
    }
}

#[test]
fn editing_secrets() {
    assert!(matches!(secret_change(&None, "master", &None).unwrap(), SecretChange::Keep));
    assert!(matches!(secret_change(&Some(String::new()), "master", &None).unwrap(), SecretChange::Clear));
    assert!(matches!(
        secret_change(&Some("n".to_string()), "dpapi", &None).unwrap(),
        SecretChange::Store(SecretToStore::ForSystem(_))
    ));
}

#[test]
fn invalid_utf8_is_replaced() {
    assert_eq!(secret_text(b"ok"), "ok");
    assert_eq!(secret_text(&[0x66, 0xff]), "f\u{FFFD}");
}

#[test]
fn locked_error_names_the_master_password() {
    let e = read_secret(&Some(vec![9u8; 40]), "master", &None).err().unwrap();
    assert_eq!(e.message, "Секреты заблокированы — введите мастер-пароль");
}
