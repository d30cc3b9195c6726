use petclinic::auth::{authenticate, verify};
use petclinic::user::User;

// SHA-1("admin"), lower-case hex.
const ADMIN_DIGEST: &str = "d033e22ae348aeb5660fc2140aec35850c4da997";

fn admin_user() -> User {
    User { id: 1, username: String::from("admin"), password: String::from(ADMIN_DIGEST) }
}

#[test]
fn verify_accepts_matching_digest() {
    assert!(verify("admin", ADMIN_DIGEST));
}

#[test]
fn verify_rejects_wrong_password() {
    assert!(!verify("wrong", ADMIN_DIGEST));
}

#[test]
fn verify_empty_digest_accepts_any_password() {
    assert!(verify("anything at all", ""));
    assert!(verify("", ""));
}

#[test]
fn verify_hashes_rather_than_compares_plaintext() {
    // The stored value is a digest, not the password itself.
    assert!(!verify("admin", "admin"));
}

#[test]
fn authenticate_unknown_username_is_none() {
    let records = vec![admin_user()];
    assert_eq!(authenticate(&records, "bob", "admin"), None);
    assert_eq!(authenticate(&Vec::new(), "admin", "admin"), None);
}

#[test]
fn authenticate_wrong_password_is_none() {
    let records = vec![admin_user()];
    assert_eq!(authenticate(&records, "admin", "wrong"), None);
}

#[test]
fn authenticate_empty_digest_succeeds_with_any_password() {
    let open = User { id: 7, username: String::from("guest"), password: String::new() };
    let records = vec![admin_user(), open.clone()];
    let got = authenticate(&records, "guest", "whatever");
    assert_eq!(got, Some(open));
}

#[test]
fn authenticate_correct_password_returns_record() {
    let records = vec![admin_user()];
    let got = authenticate(&records, "admin", "admin");
    assert_eq!(got, Some(admin_user()));
}

#[test]
fn authenticate_matches_username_exactly() {
    let records = vec![admin_user()];
    assert_eq!(authenticate(&records, "Admin", "admin"), None);
}
