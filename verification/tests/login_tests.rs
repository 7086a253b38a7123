use bws_manager::login::{
    authorize_session, login_post, port_in_origin, session_target, signup_post, signup_precheck, AdminGuard, LoginForm, User,
};
use bws_manager::models::{self, ActiveSession};
use bws_manager::session::{GTK3_SERVICE_ID, GTK4_SERVICE_ID};

fn user(role: &str) -> User {
    User { username: "bob".to_string(), role: role.to_string() }
}

fn session(service: i32, port: Option<i32>, ip: Option<&str>) -> ActiveSession {
    ActiveSession { id: 1, user: "bob".to_string(), service_id: service, docker_id: None, container_ip: ip.map(|s| s.to_string()), port, unix_created_at: 0 }
}

#[test]
fn port_in_origin_reads_last_piece() {
    assert_eq!(port_in_origin("/session/172.18.0.4/6001"), Ok(6001));
    assert_eq!(port_in_origin("6002"), Ok(6002));
    assert_eq!(port_in_origin("/session/x/"), Err(()));
    assert_eq!(port_in_origin("/session/x/abc"), Err(()));
    assert_eq!(port_in_origin("/a/-5"), Ok(-5));
}

#[test]
fn session_target_from_uri() {
    let t = session_target(Some("/s/10.0.0.2/6001"), None, None).unwrap();
    assert_eq!(t.0, 6001);
    assert_eq!(t.1.as_deref(), Some("10.0.0.2"));
}

#[test]
fn session_target_falls_back_to_cookies() {
    let t = session_target(Some("/s/app.js"), Some("6003"), Some("10.0.0.9")).unwrap();
    assert_eq!(t.0, 6003);
    assert_eq!(t.1.as_deref(), Some("10.0.0.9"));
    assert!(session_target(Some("/s/app.js"), Some("nope"), None).is_none());
    assert!(session_target(Some("/s/app.js"), None, None).is_none());
    assert!(session_target(None, Some("6003"), Some("x")).is_none());
}

#[test]
fn session_target_truncates_to_32_bits() {
    let t = session_target(Some("/x/4294967297"), None, None).unwrap();
    assert_eq!(t.0, 1);
}

#[test]
fn authorize_matching_session() {
    let sessions = vec![session(5, Some(6001), Some("ip1")), session(GTK4_SERVICE_ID, Some(6001), Some("ip1")), session(GTK3_SERVICE_ID, Some(6002), Some("ip2"))];
    let g = authorize_session(user("user"), &sessions, 6001, &Some("ip1".to_string())).unwrap();
    assert_eq!(g.used_port, 6001);
    assert_eq!(g.used_ip, "ip1");
    assert_eq!(g.user.username, "bob");
    assert!(authorize_session(user("user"), &sessions, 6001, &Some("ip2".to_string())).is_none());
    assert!(authorize_session(user("user"), &sessions, 6003, &Some("ip2".to_string())).is_none());
    assert!(authorize_session(user("user"), &vec![], 6001, &None).is_none());
}

#[test]
fn authorize_without_address_needs_none() {
    let sessions = vec![session(GTK3_SERVICE_ID, Some(6001), Some("ip"))];
    assert!(authorize_session(user("user"), &sessions, 6001, &None).is_none());
}

#[test]
fn admin_guard_only_for_admins() {
    assert!(AdminGuard::for_user(user("admin")).is_some());
    assert!(AdminGuard::for_user(user("user")).is_none());
    assert!(AdminGuard::for_user(user("Admin")).is_none());
}

#[test]
fn user_from_account() {
    let u = User::from_account(models::User { username: "x".to_string(), password: None, role: "admin".to_string() });
    assert_eq!((u.username.as_str(), u.role.as_str()), ("x", "admin"));
}

#[test]
fn login_and_signup_answers() {
    let a = models::User { username: "x".to_string(), password: None, role: "user".to_string() };
    assert_eq!(login_post(Some(a)), Ok("x".to_string()));
    assert_eq!(login_post(None), Err("username or password incorrect".to_string()));
    let form = LoginForm { username: "x".to_string(), password: "p".to_string(), invite_key: None };
    assert_eq!(signup_precheck(&form), Err("A Invitation key is required".to_string()));
    let form = LoginForm { invite_key: Some("k".to_string()), ..form };
    assert_eq!(signup_precheck(&form), Ok(()));
    assert_eq!(signup_post(true), Ok(()));
    assert_eq!(signup_post(false), Err("Could not create user, try another username!".to_string()));
}
