//! Password verification and credential resolution.
use sha1::Digest;
use vstd::prelude::*;

use crate::text::str_eq;
use crate::user::User;

verus! {

/// The lower-case hex digest that the hash of a string formats to.  It is a
/// function of the input characters alone; nothing else is assumed of it.
pub uninterp spec fn sha1_hex_of(s: Seq<char>) -> Seq<char>;

/// Relies on the sha1 crate (`Sha1::new`, `Digest::update`, `finalize`) and
/// on `{:x}` formatting of the digest: the result is the lower-case hex
/// digest of the input, a function of the input alone.
#[verifier::external_body]
fn sha1_hex(s: &str) -> (r: String)
    ensures
        r@ == sha1_hex_of(s@),
{
    let mut hasher = sha1::Sha1::new();
    hasher.update(s);
    format!("{:x}", hasher.finalize())
}

/// A submitted password passes against a stored digest when the digest is
/// the empty string (an account with no password check) or equals the hex
/// digest of the password.
pub open spec fn spec_verify(password: Seq<char>, digest: Seq<char>) -> bool {
    digest.len() == 0 || digest == sha1_hex_of(password)
}

/// One-way comparison of a submitted password against a stored digest.
/// The comparison is plain character equality, not constant-time — a known
/// hardening gap of this design.
pub fn verify(password: &str, digest: &str) -> (r: bool)
    ensures
        r == spec_verify(password@, digest@),
{
    let hashed = sha1_hex(password);
    str_eq(hashed.as_str(), digest) || digest.is_empty()
}

/// The record of the first user carrying the given name, by exact,
/// case-sensitive match.
pub open spec fn spec_find_user(records: Seq<User>, name: Seq<char>) -> Option<User>
    decreases records.len(),
{
    if records.len() == 0 {
        None
    } else if records[0].username@ == name {
        Some(records[0])
    } else {
        spec_find_user(records.drop_first(), name)
    }
}

impl User {
    /// Credential lookup by exact username match.
    pub fn select_by_name(records: &Vec<User>, name: &str) -> (r: Option<User>)
        ensures
            r == spec_find_user(records@, name@),
    {
        let n = records.len();
        let mut i: usize = 0;
        proof {
            assert(records@.skip(0) =~= records@);
        }
        while i < n
            invariant
                i <= n == records@.len(),
                spec_find_user(records@, name@) == spec_find_user(
                    records@.skip(i as int),
                    name@,
                ),
                forall|j: int| 0 <= j < i ==> records@[j].username@ != name@,
            decreases n - i,
        {
            if str_eq(records[i].username.as_str(), name) {
                return Some(records[i].clone());
            }
            proof {
                assert(records@.skip(i as int).drop_first() =~= records@.skip(i as int + 1));
            }
            i = i + 1;
        }
        proof {
            assert(records@.skip(n as int) =~= Seq::<User>::empty());
        }
        None
    }
}

/// What a login attempt resolves to: the record found under the username,
/// admitted only when the password passes against its digest.  An unknown
/// username and a failed check are indistinguishable in the result.
pub open spec fn spec_authenticate(
    records: Seq<User>,
    username: Seq<char>,
    password: Seq<char>,
) -> Option<User> {
    match spec_find_user(records, username) {
        None => None,
        Some(u) => if spec_verify(password, u.password@) {
            Some(u)
        } else {
            None
        },
    }
}

/// Turns a submitted username and password into the authenticated user, or
/// nothing when the username is unknown or the password fails.
pub fn authenticate(records: &Vec<User>, username: &str, password: &str) -> (r: Option<User>)
    ensures
        r == spec_authenticate(records@, username@, password@),
{
    match User::select_by_name(records, username) {
        None => None,
        Some(u) => {
            if verify(password, u.password.as_str()) {
                Some(u)
            } else {
                None
            }
        },
    }
}

/// Law: a username carried by no record never authenticates.
pub proof fn lemma_unknown_user_fails(records: Seq<User>, username: Seq<char>, password: Seq<char>)
    requires
        forall|i: int| 0 <= i < records.len() ==> #[trigger] records[i].username@ != username,
    ensures
        spec_authenticate(records, username, password) is None,
    decreases records.len(),
{
    if records.len() > 0 {
        assert(forall|i: int|
            0 <= i < records.drop_first().len() ==> #[trigger] records.drop_first()[i].username@
                != username);
        lemma_unknown_user_fails(records.drop_first(), username, password);
    }
}

/// Law: when the record found under a username stores a non-empty digest
/// that differs from the digest of the submitted password, authentication
/// fails.
pub proof fn lemma_wrong_password_fails(
    records: Seq<User>,
    username: Seq<char>,
    password: Seq<char>,
)
    requires
        spec_find_user(records, username) is Some,
        spec_find_user(records, username)->Some_0.password@.len() > 0,
        spec_find_user(records, username)->Some_0.password@ != sha1_hex_of(password),
    ensures
        spec_authenticate(records, username, password) is None,
{
}

/// Law: a record with an empty stored digest authenticates under any
/// password.
pub proof fn lemma_empty_digest_succeeds(
    records: Seq<User>,
    username: Seq<char>,
    password: Seq<char>,
)
    requires
        spec_find_user(records, username) is Some,
        spec_find_user(records, username)->Some_0.password@.len() == 0,
    ensures
        spec_authenticate(records, username, password) == spec_find_user(records, username),
{
}

} // verus!
