use bws_manager::login::User;
use bws_manager::models::InviteKey;
use bws_manager::pages::{create_invite_key, delete_invite_key, index, login_redirect, not_found, unauth, OptionBoxes};

fn user(role: &str) -> User {
    User { username: "bob".to_string(), role: role.to_string() }
}

#[test]
fn home_page_for_user() {
    let p = index(user("user"), None);
    assert!(!p.admin_settings);
    assert_eq!(p.boxes.len(), 1);
    assert_eq!(p.boxes[0].headline, "Broadway");
    assert_eq!(p.boxes[0].start_request_to.as_deref(), Some("/api/start/gtk"));
    match &p.boxes[0].options {
        OptionBoxes::GtkSession(o) => assert_eq!(o.status_msg, "No active sessions"),
        _ => panic!(),
    }
}

#[test]
fn home_page_for_admin() {
    let p = index(user("admin"), None);
    assert!(p.admin_settings);
    assert_eq!(p.boxes.len(), 2);
    assert_eq!(p.boxes[1].headline, "Admin: Invite Keys");
    assert!(p.boxes[1].start_request_to.is_none());
    assert!(matches!(&p.boxes[1].options, OptionBoxes::AdminInvite(k) if k.is_empty()));
}

#[test]
fn invite_key_boxes() {
    let k = InviteKey { inv_key: "abc".to_string(), unix_created_at: 1 };
    assert!(matches!(create_invite_key(Some(k)), OptionBoxes::AdminInvite(s) if s == "abc"));
    assert!(matches!(create_invite_key(None), OptionBoxes::AdminInvite(s) if s == "Could not Create key "));
    assert!(matches!(delete_invite_key(true), OptionBoxes::AdminInvite(s) if s == "All keys deleted"));
    assert!(matches!(delete_invite_key(false), OptionBoxes::AdminInvite(s) if s == "Could not delete keys"));
}

#[test]
fn redirect_targets() {
    assert_eq!(login_redirect(), "/login");
    assert_eq!(unauth(), "/login");
    assert_eq!(not_found(), "/");
}
