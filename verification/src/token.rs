//! Session token generation.
use rand::Rng;
use vstd::prelude::*;

verus! {

/// Tokens are exactly this long.
pub const TOKEN_LEN: usize = 32;

/// An ASCII letter or digit, the only characters a session token holds.
pub open spec fn is_token_char(c: char) -> bool {
    ('A' <= c && c <= 'Z') || ('a' <= c && c <= 'z') || ('0' <= c && c <= '9')
}

/// Relies on rand's `thread_rng` sampling the `Alphanumeric` distribution,
/// which draws uniformly from the ASCII letters and digits.  The result is a
/// fresh random token; nothing relates one call's result to another's.
#[verifier::external_body]
pub fn session_key() -> (r: String)
    ensures
        r@.len() == TOKEN_LEN,
        forall|i: int| 0 <= i < r@.len() ==> is_token_char(#[trigger] r@[i]),
{
    rand::thread_rng().sample_iter(&rand::distributions::Alphanumeric).take(TOKEN_LEN).map(
        char::from,
    ).collect()
}

} // verus!
