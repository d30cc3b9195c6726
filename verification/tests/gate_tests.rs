use petclinic::gate::{
    cookie_value, deny_status, gate, logout_redirect, post_login, principal_name,
    session_cookie_name, GateOutcome, LoginForm, LoginOutcome,
};
use petclinic::session::SessionStore;
use petclinic::user::User;

fn admin() -> User {
    User {
        id: 1,
        username: String::from("admin"),
        password: String::from("d033e22ae348aeb5660fc2140aec35850c4da997"),
    }
}

fn form(username: &str, password: &str) -> LoginForm {
    LoginForm { username: String::from(username), password: String::from(password) }
}

#[test]
fn login_then_request_resolves_admin() {
    let mut store = SessionStore::new(10);
    let records = vec![admin()];
    let outcome = post_login(&mut store, &records, &form("admin", "admin"), 0);
    let token = match outcome {
        LoginOutcome::Success(token) => token,
        LoginOutcome::Failure => panic!("expected a session"),
    };
    assert_eq!(token.len(), 32);
    match gate(&mut store, Some(token.as_str()), 1) {
        GateOutcome::Admit(user) => assert_eq!(user.username, "admin"),
        GateOutcome::Deny => panic!("expected the request to be admitted"),
    }
}

#[test]
fn login_success_redirects_to_landing_page() {
    let mut store = SessionStore::new(10);
    let records = vec![admin()];
    let outcome = post_login(&mut store, &records, &form("admin", "admin"), 0);
    assert_eq!(outcome.redirect(), "/pets");
}

#[test]
fn login_failure_issues_no_session() {
    let mut store = SessionStore::new(10);
    let records = vec![admin()];
    let outcome = post_login(&mut store, &records, &form("admin", "wrong"), 0);
    assert!(matches!(outcome, LoginOutcome::Failure));
    assert_eq!(outcome.redirect(), "/login?error");
    assert_eq!(store.entries.len(), 0);
}

#[test]
fn gate_without_cookie_denies() {
    let mut store = SessionStore::new(10);
    let outcome = gate(&mut store, None, 0);
    assert!(matches!(outcome, GateOutcome::Deny));
    assert_eq!(outcome.redirect(), Some("/login"));
    assert_eq!(deny_status(), 307);
}

#[test]
fn gate_with_unissued_token_denies() {
    let mut store = SessionStore::new(10);
    let records = vec![admin()];
    post_login(&mut store, &records, &form("admin", "admin"), 0);
    let outcome = gate(&mut store, Some("tokennobodyissued"), 1);
    assert!(matches!(outcome, GateOutcome::Deny));
    assert_eq!(outcome.redirect(), Some("/login"));
}

#[test]
fn cookie_is_located_by_its_fixed_name() {
    assert_eq!(session_cookie_name(), "axum_session");
    let jar = vec![
        (String::from("theme"), String::from("dark")),
        (String::from("axum_session"), String::from("sometokenvalue")),
        (String::from("axum_session"), String::from("shadowed")),
    ];
    let got = cookie_value(&jar, session_cookie_name());
    assert_eq!(got.map(String::as_str), Some("sometokenvalue"));
    assert_eq!(cookie_value(&jar, "absent"), None);
}

#[test]
fn full_request_flow_through_the_jar() {
    let mut store = SessionStore::new(10);
    let records = vec![admin()];
    let token = match post_login(&mut store, &records, &form("admin", "admin"), 0) {
        LoginOutcome::Success(token) => token,
        LoginOutcome::Failure => panic!("expected a session"),
    };
    let jar = vec![(String::from("axum_session"), token)];
    let cookie = cookie_value(&jar, session_cookie_name());
    match gate(&mut store, cookie.map(String::as_str), 5) {
        GateOutcome::Admit(user) => assert_eq!(user.username, "admin"),
        GateOutcome::Deny => panic!("expected the request to be admitted"),
    }
}

#[test]
fn principal_name_shows_user_or_placeholder() {
    let u = admin();
    assert_eq!(principal_name(Some(&u)), "admin");
    assert_eq!(principal_name(None), "Not Logged in");
}

#[test]
fn logout_redirects_home() {
    assert_eq!(logout_redirect(), "/");
}
