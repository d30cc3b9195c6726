use petclinic::codec::encode_user;
use petclinic::session::{SessionError, SessionStore};
use petclinic::user::User;

fn admin() -> User {
    User {
        id: 1,
        username: String::from("admin"),
        password: String::from("d033e22ae348aeb5660fc2140aec35850c4da997"),
    }
}

#[test]
fn create_then_fetch_yields_same_user() {
    let mut store = SessionStore::new(10);
    let token = store.create(&admin(), 100);
    let got = store.fetch_and_refresh(&token, 100);
    assert_eq!(got, Ok(admin()));
}

#[test]
fn create_returns_fixed_length_token() {
    let mut store = SessionStore::new(10);
    let token = store.create(&admin(), 0);
    assert_eq!(token.len(), 32);
}

#[test]
fn fetch_unknown_token_is_not_found() {
    let mut store = SessionStore::new(10);
    assert_eq!(
        store.fetch_and_refresh("never-issued-token", 0),
        Err(SessionError::NotFound)
    );
}

#[test]
fn fetch_after_invalidate_is_not_found() {
    let mut store = SessionStore::new(10);
    let token = store.create(&admin(), 0);
    store.invalidate(&token);
    assert_eq!(store.fetch_and_refresh(&token, 1), Err(SessionError::NotFound));
}

#[test]
fn invalidate_absent_token_is_not_an_error() {
    let mut store = SessionStore::new(10);
    store.invalidate("nothing-under-this");
    assert_eq!(store.entries.len(), 0);
}

#[test]
fn fetch_at_expiry_is_not_found() {
    let mut store = SessionStore::new(10);
    let token = store.create(&admin(), 0);
    assert_eq!(store.fetch_and_refresh(&token, 10), Err(SessionError::NotFound));
}

#[test]
fn fetch_slides_the_expiry() {
    let mut store = SessionStore::new(10);
    let token = store.create(&admin(), 0);
    // Just before the original window lapses.
    assert_eq!(store.fetch_and_refresh(&token, 9), Ok(admin()));
    // Past the original window, within the refreshed one.
    assert_eq!(store.fetch_and_refresh(&token, 14), Ok(admin()));
    // The second fetch slid the window again, to 24.
    assert_eq!(store.fetch_and_refresh(&token, 23), Ok(admin()));
    assert_eq!(store.fetch_and_refresh(&token, 33), Err(SessionError::NotFound));
}

#[test]
fn unreadable_payload_is_corrupt() {
    let mut store = SessionStore::new(10);
    store.write_entry(String::from("sometoken"), String::from("garbage"), 0);
    assert_eq!(
        store.fetch_and_refresh("sometoken", 1),
        Err(SessionError::Corrupt)
    );
}

#[test]
fn write_entry_replaces_existing_payload() {
    let mut store = SessionStore::new(10);
    let other = User { id: 2, username: String::from("second"), password: String::new() };
    store.write_entry(String::from("t"), encode_user(&admin()), 0);
    store.write_entry(String::from("t"), encode_user(&other), 0);
    assert_eq!(store.entries.len(), 1);
    assert_eq!(store.fetch_and_refresh("t", 1), Ok(other));
}

#[test]
fn entries_are_independent() {
    let mut store = SessionStore::new(10);
    let t1 = store.create(&admin(), 0);
    let other = User { id: 2, username: String::from("second"), password: String::new() };
    let t2 = store.create(&other, 0);
    store.invalidate(&t1);
    assert_eq!(store.fetch_and_refresh(&t2, 1), Ok(other));
    assert_eq!(store.fetch_and_refresh(&t1, 1), Err(SessionError::NotFound));
}
