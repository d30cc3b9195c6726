use std::collections::HashSet;

use petclinic::token::session_key;

#[test]
fn session_key_is_32_alphanumeric_chars() {
    for _ in 0..100 {
        let key = session_key();
        assert_eq!(key.chars().count(), 32);
        assert!(key.chars().all(|c| c.is_ascii_alphanumeric()));
    }
}

#[test]
fn session_keys_do_not_collide() {
    let n = 100_000;
    let mut seen = HashSet::with_capacity(n);
    for _ in 0..n {
        let key = session_key();
        assert_eq!(key.len(), 32);
        seen.insert(key);
    }
    assert_eq!(seen.len(), n);
}
