use petclinic::codec::{encode_user, parse_user};
use petclinic::user::User;

fn user(id: i32, name: &str, digest: &str) -> User {
    User { id, username: String::from(name), password: String::from(digest) }
}

#[test]
fn encode_has_exact_shape() {
    let encoded = encode_user(&user(1, "admin", "x"));
    assert_eq!(encoded, "1:5:admin1:x");
}

#[test]
fn encode_negative_id() {
    let encoded = encode_user(&user(-42, "a", ""));
    assert_eq!(encoded, "-42:1:a0:");
}

#[test]
fn round_trip_simple() {
    let u = user(1, "admin", "d033e22ae348aeb5660fc2140aec35850c4da997");
    assert_eq!(parse_user(&encode_user(&u)), Some(u));
}

#[test]
fn round_trip_awkward_contents() {
    // Field text that looks like the framing itself must survive.
    let cases = vec![
        user(0, "", ""),
        user(-2147483648, "5:admin", "9:x"),
        user(2147483647, "::::", "1234567890"),
        user(12, "name with spaces", "digest:with:colons"),
    ];
    for u in cases {
        assert_eq!(parse_user(&encode_user(&u)), Some(u));
    }
}

#[test]
fn parse_rejects_malformed_text() {
    assert_eq!(parse_user(""), None);
    assert_eq!(parse_user("abc"), None);
    assert_eq!(parse_user("1"), None);
    assert_eq!(parse_user("1:"), None);
    assert_eq!(parse_user("1:5:admin"), None);
    // Count shorter than the remaining text.
    assert_eq!(parse_user("1:5:admin1:xx"), None);
    // Count longer than the remaining text.
    assert_eq!(parse_user("1:99:admin1:x"), None);
    // Id out of the 32-bit range.
    assert_eq!(parse_user("4294967296:1:a0:"), None);
}

#[test]
fn parse_is_not_identity() {
    // A payload that is itself a valid encoding of nothing else.
    let u = user(3, "abc", "def");
    let encoded = encode_user(&u);
    let parsed = parse_user(&encoded).unwrap();
    assert_eq!(parsed.username, "abc");
    assert_eq!(parsed.password, "def");
    assert_eq!(parsed.id, 3);
    assert_ne!(encoded, "abc");
}
