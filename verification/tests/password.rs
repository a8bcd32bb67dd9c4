use locoryn::password::{hash_password, migrate_settings, verify_password, PasswordFields, StoredValue};

#[test]
fn passwords_saved_with_argon2_0_5_still_verify() {
    // Generated with argon2 0.5.3 defaults and the test salt "locoryn-test-salt".
    let hash = "$argon2id$v=19$m=19456,t=2,p=1$bG9jb3J5bi10ZXN0LXNhbHQ$8QTHN1P+y/6DBUZhszz0cTPGAzkr/iHOcF4KMwOa4IE";
    assert!(verify_password("legacy password", hash));
    assert!(!verify_password("wrong password", hash));
}

#[test]
fn passwords_use_unique_salts_and_verify_without_accepting_the_hash_itself() {
    let password = "  classroom 🔑  ";
    let first = hash_password(password).unwrap();
    let second = hash_password(password).unwrap();
    assert!(first.starts_with("$argon2id$v=19$"));
    assert_ne!(first, second);
    assert!(verify_password(password, &first));
    assert!(verify_password(password, &second));
    assert!(!verify_password("wrong", &first));
    assert!(!verify_password(password.trim(), &first));
    assert!(!verify_password(&first, &first));
    assert!(!verify_password("", ""));
    assert!(!verify_password("password", "$argon2id$invalid"));
}

fn text(value: Option<&PasswordFields>) -> Option<String> {
    match value.and_then(|fields| fields.password_hash.as_ref()) {
        Some(StoredValue::Text(t)) => Some(t.clone()),
        _ => None,
    }
}

#[test]
fn migration_removes_plaintext_and_is_idempotent() {
    let mut settings = PasswordFields {
        password: Some(StoredValue::Text("legacy password".into())),
        password_hash: None,
    };
    assert!(migrate_settings(&mut settings).unwrap());
    assert!(settings.password.is_none());
    let hash = text(Some(&settings)).unwrap();
    assert!(verify_password("legacy password", &hash));
    assert!(!migrate_settings(&mut settings).unwrap());
    assert!(settings.password.is_none());
    assert_eq!(text(Some(&settings)).unwrap(), hash);
}

#[test]
fn migration_never_replaces_an_existing_hash_with_legacy_plaintext() {
    let mut settings = PasswordFields {
        password: Some(StoredValue::Text("legacy".into())),
        password_hash: Some(StoredValue::Text("$argon2id$invalid".into())),
    };
    migrate_settings(&mut settings).unwrap();
    assert_eq!(text(Some(&settings)).as_deref(), Some("$argon2id$invalid"));
    assert!(settings.password.is_none());
    assert!(!verify_password("legacy", "$argon2id$invalid"));
}

#[test]
fn an_empty_legacy_password_becomes_an_empty_hash() {
    let mut settings = PasswordFields {
        password: Some(StoredValue::Other),
        password_hash: None,
    };
    assert!(migrate_settings(&mut settings).unwrap());
    assert_eq!(text(Some(&settings)).as_deref(), Some(""));
}
