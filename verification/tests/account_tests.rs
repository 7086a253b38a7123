use bws_manager::user_management::{key_step, KeyAction, new_invite_key, new_user_record, password_accepted, plan_user_update, INVITE_KEY_LEN};

#[test]
fn signup_then_login_with_same_password() {
    let u = new_user_record("alice", "s3cret");
    assert_eq!(u.username, "alice");
    assert_eq!(u.role, "user");
    let hash = u.password.clone().unwrap();
    assert_ne!(hash, "s3cret");
    assert!(password_accepted("s3cret", &u.password, Some(false)));
    assert!(password_accepted("s3cret", &u.password, None));
    assert!(!password_accepted("wrong", &u.password, Some(false)));
}

#[test]
fn login_by_hash_compares_text() {
    let stored = Some("$argon2id$abc".to_string());
    assert!(password_accepted("$argon2id$abc", &stored, Some(true)));
    assert!(!password_accepted("abc", &stored, Some(true)));
}

#[test]
fn account_without_password() {
    assert!(!password_accepted("x", &None, None));
    assert!(password_accepted(" ", &None, Some(true)));
    assert!(!password_accepted("", &None, Some(true)));
}

#[test]
fn garbage_hash_never_verifies() {
    let stored = Some("not a hash".to_string());
    assert!(!password_accepted("not a hash", &stored, Some(false)));
}

#[test]
fn update_plan() {
    let u = plan_user_update(Some("new"), Some("pw"));
    assert_eq!(u.new_username.as_deref(), Some("new"));
    let h = u.new_password_hash.clone();
    assert!(password_accepted("pw", &h, None));
    let none = plan_user_update(None, None);
    assert!(none.new_username.is_none() && none.new_password_hash.is_none());
}

#[test]
fn invite_keys_are_long_alphanumeric() {
    let k = new_invite_key(42);
    assert_eq!(k.inv_key.chars().count(), INVITE_KEY_LEN);
    assert_eq!(INVITE_KEY_LEN, 64);
    assert!(k.inv_key.chars().all(|c| c.is_ascii_alphanumeric()));
    assert_eq!(k.unix_created_at, 42);
    let k2 = new_invite_key(42);
    assert_ne!(k.inv_key, k2.inv_key);
}

#[test]
fn key_step_inserts_only_unknown_keys() {
    let k = new_invite_key(42);
    let text = k.inv_key.clone();
    match key_step(k, false) {
        KeyAction::Insert(ins) => {
            assert_eq!(ins.inv_key, text);
            assert_eq!(ins.unix_created_at, 42);
        }
        KeyAction::Retry => panic!("expected insert"),
    }
    assert!(matches!(key_step(new_invite_key(1), true), KeyAction::Retry));
}
