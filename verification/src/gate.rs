//! The per-request session gate and the login flow.
//!
//! The guard runs once per request: it takes the value of the session
//! cookie, if the request carried one, consults the session store, and
//! either admits the request with the resolved user attached or denies it,
//! in which case the handler answers with a temporary redirect to the login
//! entry point.  The login flow turns submitted credentials into a fresh
//! session or a redirect back to the login view.
use vstd::prelude::*;

use crate::auth::{authenticate, spec_authenticate};
use crate::session::{spec_fetch, spec_get, SessionStore};
use crate::codec::spec_encode_user;
use crate::token::TOKEN_LEN;
use crate::user::User;

verus! {

/// The credentials a login submission carries.
#[derive(Debug)]
pub struct LoginForm {
    pub username: String,
    pub password: String,
}

/// The query parameters of the login view: an error indicator set when a
/// previous attempt failed.
#[derive(Debug)]
pub struct LoginParams {
    pub error: Option<String>,
}

/// The fixed name under which the session cookie travels; its value is the
/// session token.
pub fn session_cookie_name() -> (r: &'static str)
    ensures
        r@ == "axum_session"@,
{
    "axum_session"
}

/// The value of the first cookie carrying the given name.
pub open spec fn spec_cookie_value(jar: Seq<(String, String)>, name: Seq<char>) -> Option<
    Seq<char>,
>
    decreases jar.len(),
{
    if jar.len() == 0 {
        None
    } else if jar[0].0@ == name {
        Some(jar[0].1@)
    } else {
        spec_cookie_value(jar.drop_first(), name)
    }
}

/// Locates a cookie by name in a jar of name/value pairs.
pub fn cookie_value<'a>(jar: &'a Vec<(String, String)>, name: &str) -> (r: Option<&'a String>)
    ensures
        match r {
            None => spec_cookie_value(jar@, name@) is None,
            Some(v) => spec_cookie_value(jar@, name@) == Some(v@),
        },
{
    let n = jar.len();
    let mut i: usize = 0;
    proof {
        assert(jar@.skip(0) =~= jar@);
    }
    while i < n
        invariant
            i <= n == jar@.len(),
            spec_cookie_value(jar@, name@) == spec_cookie_value(jar@.skip(i as int), name@),
        decreases n - i,
    {
        if crate::text::str_eq(jar[i].0.as_str(), name) {
            return Some(&jar[i].1);
        }
        proof {
            assert(jar@.skip(i as int).drop_first() =~= jar@.skip(i as int + 1));
        }
        i = i + 1;
    }
    proof {
        assert(jar@.skip(n as int) =~= Seq::<(String, String)>::empty());
    }
    None
}

/// The guard's answer for one request: admit it with the resolved user, or
/// deny it.
pub enum GateOutcome {
    Admit(User),
    Deny,
}

impl GateOutcome {
    /// Where a denied request is sent: the login entry point, as a
    /// temporary redirect.  An admitted request is not redirected.
    pub fn redirect(&self) -> (r: Option<&'static str>)
        ensures
            match r {
                None => self is Admit,
                Some(path) => self is Deny && path@ == "/login"@,
            },
    {
        match self {
            GateOutcome::Admit(_) => None,
            GateOutcome::Deny => Some("/login"),
        }
    }
}

/// The HTTP status a denied request is answered with: temporary redirect,
/// so the browser re-issues the request after a later successful login
/// instead of caching the deny.
pub fn deny_status() -> (r: u16)
    ensures
        r == 307,
{
    307
}

/// Runs the guard for one request.  No cookie denies outright; with a
/// cookie the store answers, a hit admitting the request (and sliding the
/// session's expiry), every failure denying it with the store unchanged.
pub fn gate(store: &mut SessionStore, cookie: Option<&str>, now: u64) -> (r: GateOutcome)
    requires
        old(store).wf(),
        now + old(store).timeout <= u64::MAX,
    ensures
        final(store).wf(),
        final(store).timeout == old(store).timeout,
        match cookie {
            None => r is Deny && final(store).entries@ == old(store).entries@,
            Some(tok) => match spec_fetch(old(store).entries@, tok@, now) {
                Ok(uv) => {
                    &&& r is Admit
                    &&& r->Admit_0@ == uv
                    &&& spec_get(final(store).entries@, tok@) == Some(
                        (
                            (spec_get(old(store).entries@, tok@)->Some_0).0,
                            (now + old(store).timeout) as u64,
                        ),
                    )
                    &&& forall|t: Seq<char>|
                        t != tok@ ==> #[trigger] spec_get(final(store).entries@, t) == spec_get(
                            old(store).entries@,
                            t,
                        )
                },
                Err(_) => r is Deny && final(store).entries@ == old(store).entries@,
            },
        },
{
    match cookie {
        None => GateOutcome::Deny,
        Some(tok) => match store.fetch_and_refresh(tok, now) {
            Ok(user) => GateOutcome::Admit(user),
            Err(_) => GateOutcome::Deny,
        },
    }
}

/// What a login submission ends in: a fresh session token, or a failure.
pub enum LoginOutcome {
    Success(String),
    Failure,
}

impl LoginOutcome {
    /// Where the login response redirects: the landing page on success, the
    /// login view with its error indicator on failure.
    pub fn redirect(&self) -> (r: &'static str)
        ensures
            self is Success ==> r@ == "/pets"@,
            self is Failure ==> r@ == "/login?error"@,
    {
        match self {
            LoginOutcome::Success(_) => "/pets",
            LoginOutcome::Failure => "/login?error",
        }
    }
}

/// Handles a login submission: authenticates the credentials against the
/// records and, on success, creates a session holding the user's snapshot
/// and hands back its token — the value the session cookie is set to.  On
/// failure the store is untouched and no cookie is issued.
pub fn post_login(
    store: &mut SessionStore,
    records: &Vec<User>,
    form: &LoginForm,
    now: u64,
) -> (r: LoginOutcome)
    requires
        old(store).wf(),
        now + old(store).timeout <= u64::MAX,
    ensures
        final(store).wf(),
        final(store).timeout == old(store).timeout,
        match spec_authenticate(records@, form.username@, form.password@) {
            None => r is Failure && final(store).entries@ == old(store).entries@,
            Some(u) => {
                &&& r is Success
                &&& r->Success_0@.len() == TOKEN_LEN
                &&& spec_get(final(store).entries@, r->Success_0@) == Some(
                    (spec_encode_user(u@), (now + old(store).timeout) as u64),
                )
                &&& forall|t: Seq<char>|
                    t != r->Success_0@ ==> #[trigger] spec_get(final(store).entries@, t)
                        == spec_get(old(store).entries@, t)
            },
        },
{
    match authenticate(records, form.username.as_str(), form.password.as_str()) {
        None => LoginOutcome::Failure,
        Some(user) => {
            let token = store.create(&user, now);
            LoginOutcome::Success(token)
        },
    }
}

/// Where a logout response redirects after clearing the cookie.  The store
/// entry itself is left to lapse by expiry.
pub fn logout_redirect() -> (r: &'static str)
    ensures
        r@ == "/"@,
{
    "/"
}

/// The display name the rendering layer shows for a request's identity:
/// the resolved user's username, or a fixed placeholder when the request
/// carries none.
pub fn principal_name(user: Option<&User>) -> (r: String)
    ensures
        match user {
            Some(u) => r@ == u.username@,
            None => r@ == "Not Logged in"@,
        },
{
    match user {
        Some(u) => u.username.clone(),
        None => "Not Logged in".to_owned(),
    }
}

} // verus!
