//! The cache-backed session store.
//!
//! A store maps opaque tokens to serialized user snapshots, each entry
//! carrying an absolute expiry instant.  Time enters every operation as a
//! plain `now` argument; an entry whose expiry has been reached counts as
//! evicted.  A successful fetch resets the entry's expiry to `now` plus the
//! configured timeout — sliding expiration.
use vstd::prelude::*;

use crate::codec::{encode_user, parse_user, spec_encode_user, spec_parse_user};
use crate::text::str_eq;
use crate::token::{session_key, TOKEN_LEN};
use crate::user::{User, UserV};

verus! {

/// Why a fetch failed: no live entry under the token, or a payload that does
/// not read back as a user snapshot.
#[derive(Clone, Copy, Debug, PartialEq, Eq, Structural)]
pub enum SessionError {
    NotFound,
    Corrupt,
}

/// One cache entry: the token it is keyed by, the payload text, and the
/// instant (in seconds) at which it expires.
pub struct SessionEntry {
    pub token: String,
    pub payload: String,
    pub expires_at: u64,
}

/// The session store: its entries and the configured session timeout in
/// seconds.
pub struct SessionStore {
    pub entries: Vec<SessionEntry>,
    pub timeout: u64,
}

/// The payload and expiry stored under a token, if any.
pub open spec fn spec_get(entries: Seq<SessionEntry>, token: Seq<char>) -> Option<(Seq<char>, u64)>
    decreases entries.len(),
{
    if entries.len() == 0 {
        None
    } else if entries[0].token@ == token {
        Some((entries[0].payload@, entries[0].expires_at))
    } else {
        spec_get(entries.drop_first(), token)
    }
}

/// What a fetch at instant `now` resolves: the snapshot read back from a
/// live entry's payload, `NotFound` for a missing or expired entry,
/// `Corrupt` for a payload that does not parse.
pub open spec fn spec_fetch(entries: Seq<SessionEntry>, token: Seq<char>, now: u64) -> Result<
    UserV,
    SessionError,
> {
    match spec_get(entries, token) {
        None => Err(SessionError::NotFound),
        Some((payload, exp)) => if now >= exp {
            Err(SessionError::NotFound)
        } else {
            match spec_parse_user(payload) {
                None => Err(SessionError::Corrupt),
                Some(uv) => Ok(uv),
            }
        },
    }
}

proof fn lemma_spec_get_at(entries: Seq<SessionEntry>, token: Seq<char>, i: int)
    requires
        0 <= i < entries.len(),
        entries[i].token@ == token,
        forall|j: int| 0 <= j < i ==> #[trigger] entries[j].token@ != token,
    ensures
        spec_get(entries, token) == Some((entries[i].payload@, entries[i].expires_at)),
    decreases i,
{
    if i > 0 {
        lemma_spec_get_at(entries.drop_first(), token, i - 1);
    }
}

proof fn lemma_spec_get_none(entries: Seq<SessionEntry>, token: Seq<char>)
    requires
        forall|j: int| 0 <= j < entries.len() ==> #[trigger] entries[j].token@ != token,
    ensures
        spec_get(entries, token) is None,
    decreases entries.len(),
{
    if entries.len() > 0 {
        lemma_spec_get_none(entries.drop_first(), token);
    }
}

/// Entries for tokens other than `changed` are the same in both sequences,
/// so any other token resolves the same way.
proof fn lemma_spec_get_frame(
    e1: Seq<SessionEntry>,
    e2: Seq<SessionEntry>,
    changed: Seq<char>,
    t: Seq<char>,
)
    requires
        e1.len() == e2.len(),
        forall|i: int| 0 <= i < e1.len() ==> #[trigger] e1[i].token@ == e2[i].token@,
        forall|i: int| 0 <= i < e1.len() && e1[i].token@ != changed ==> #[trigger] e1[i] == e2[i],
        t != changed,
    ensures
        spec_get(e1, t) == spec_get(e2, t),
    decreases e1.len(),
{
    if e1.len() > 0 {
        lemma_spec_get_frame(e1.drop_first(), e2.drop_first(), changed, t);
    }
}

proof fn lemma_spec_get_push(entries: Seq<SessionEntry>, x: SessionEntry, t: Seq<char>)
    ensures
        spec_get(entries.push(x), t) == (match spec_get(entries, t) {
            Some(p) => Some(p),
            None => if x.token@ == t {
                Some((x.payload@, x.expires_at))
            } else {
                None
            },
        }),
    decreases entries.len(),
{
    if entries.len() == 0 {
        assert(entries.push(x)[0] == x);
        assert(entries.push(x).drop_first() =~= Seq::<SessionEntry>::empty());
        assert(spec_get(Seq::<SessionEntry>::empty(), t) is None);
        assert(spec_get(entries, t) is None);
        if x.token@ == t {
            assert(spec_get(entries.push(x), t) == Some((x.payload@, x.expires_at)));
        } else {
            assert(spec_get(entries.push(x), t) == spec_get(entries.push(x).drop_first(), t));
        }
    } else {
        assert(entries.push(x)[0] == entries[0]);
        assert(entries.push(x).drop_first() =~= entries.drop_first().push(x));
        lemma_spec_get_push(entries.drop_first(), x, t);
    }
}

proof fn lemma_spec_get_remove(entries: Seq<SessionEntry>, i: int, t: Seq<char>)
    requires
        0 <= i < entries.len(),
        forall|j: int|
            0 <= j < entries.len() && j != i ==> #[trigger] entries[j].token@
                != entries[i].token@,
    ensures
        spec_get(entries.remove(i), t) == (if t == entries[i].token@ {
            None::<(Seq<char>, u64)>
        } else {
            spec_get(entries, t)
        }),
    decreases entries.len(),
{
    if i == 0 {
        assert(entries.remove(0) =~= entries.drop_first());
        if t == entries[0].token@ {
            lemma_spec_get_none(entries.drop_first(), t);
        }
    } else {
        assert(entries.remove(i).drop_first() =~= entries.drop_first().remove(i - 1));
        lemma_spec_get_remove(entries.drop_first(), i - 1, t);
    }
}

impl SessionStore {
    /// Tokens identify at most one entry.
    pub open spec fn wf(self) -> bool {
        forall|i: int, j: int|
            0 <= i < j < self.entries@.len() ==> #[trigger] self.entries@[i].token@
                != #[trigger] self.entries@[j].token@
    }

    /// An empty store with the given session timeout in seconds.
    pub fn new(timeout: u64) -> (r: SessionStore)
        ensures
            r.wf(),
            r.entries@.len() == 0,
            r.timeout == timeout,
    {
        SessionStore { entries: Vec::new(), timeout }
    }

    fn find_index(&self, token: &str) -> (r: Option<usize>)
        ensures
            match r {
                Some(i) => i < self.entries@.len() && self.entries@[i as int].token@ == token@
                    && forall|j: int| 0 <= j < i ==> #[trigger] self.entries@[j].token@ != token@,
                None => forall|j: int|
                    0 <= j < self.entries@.len() ==> #[trigger] self.entries@[j].token@ != token@,
            },
    {
        let n = self.entries.len();
        let mut i: usize = 0;
        while i < n
            invariant
                i <= n == self.entries@.len(),
                forall|j: int| 0 <= j < i ==> #[trigger] self.entries@[j].token@ != token@,
            decreases n - i,
        {
            if str_eq(self.entries[i].token.as_str(), token) {
                return Some(i);
            }
            i = i + 1;
        }
        None
    }

    /// Writes the payload under the token with a fresh expiry, replacing any
    /// entry the token already had; every other token's entry is untouched.
    pub fn write_entry(&mut self, token: String, payload: String, now: u64)
        requires
            old(self).wf(),
            now + old(self).timeout <= u64::MAX,
        ensures
            final(self).wf(),
            final(self).timeout == old(self).timeout,
            spec_get(final(self).entries@, token@) == Some(
                (payload@, (now + old(self).timeout) as u64),
            ),
            forall|t: Seq<char>|
                t != token@ ==> #[trigger] spec_get(final(self).entries@, t) == spec_get(
                    old(self).entries@,
                    t,
                ),
    {
        let exp = now + self.timeout;
        match self.find_index(token.as_str()) {
            Some(i) => {
                self.entries[i].payload = payload;
                self.entries[i].expires_at = exp;
                proof {
                    let e1 = old(self).entries@;
                    let e2 = self.entries@;
                    assert(forall|k: int|
                        0 <= k < e1.len() && k != i ==> #[trigger] e2[k] == e1[k]);
                    assert(e2[i as int].token@ == token@);
                    lemma_spec_get_at(e2, token@, i as int);
                    assert forall|t: Seq<char>| t != token@ implies #[trigger] spec_get(e2, t)
                        == spec_get(e1, t) by {
                        lemma_spec_get_frame(e1, e2, token@, t);
                    }
                }
            },
            None => {
                let entry = SessionEntry { token, payload, expires_at: exp };
                self.entries.push(entry);
                proof {
                    let e1 = old(self).entries@;
                    let e2 = self.entries@;
                    lemma_spec_get_none(e1, e2.last().token@);
                    assert forall|t: Seq<char>| true implies #[trigger] spec_get(e2, t) == (
                    match spec_get(e1, t) {
                        Some(p) => Some(p),
                        None => if e2.last().token@ == t {
                            Some((e2.last().payload@, e2.last().expires_at))
                        } else {
                            None
                        },
                    }) by {
                        lemma_spec_get_push(e1, e2.last(), t);
                        assert(e1.push(e2.last()) =~= e2);
                    }
                }
            },
        }
    }

    /// Generates a fresh token, serializes the user snapshot, and stores it
    /// with the configured timeout; returns the token.
    pub fn create(&mut self, user: &User, now: u64) -> (token: String)
        requires
            old(self).wf(),
            now + old(self).timeout <= u64::MAX,
        ensures
            final(self).wf(),
            final(self).timeout == old(self).timeout,
            token@.len() == TOKEN_LEN,
            spec_get(final(self).entries@, token@) == Some(
                (spec_encode_user(user@), (now + old(self).timeout) as u64),
            ),
            forall|t: Seq<char>|
                t != token@ ==> #[trigger] spec_get(final(self).entries@, t) == spec_get(
                    old(self).entries@,
                    t,
                ),
    {
        let token = session_key();
        let payload = encode_user(user);
        self.write_entry(token.clone(), payload, now);
        token
    }

    /// Reads the entry under the token.  On a hit the payload is parsed back
    /// into the user and the entry's expiry is reset to `now` plus the
    /// timeout, the payload untouched; a missing or expired entry is
    /// `NotFound`, an unreadable payload `Corrupt`, and on every failure the
    /// store is unchanged.
    pub fn fetch_and_refresh(&mut self, token: &str, now: u64) -> (r: Result<User, SessionError>)
        requires
            old(self).wf(),
            now + old(self).timeout <= u64::MAX,
        ensures
            final(self).wf(),
            final(self).timeout == old(self).timeout,
            match spec_fetch(old(self).entries@, token@, now) {
                Ok(uv) => {
                    &&& r is Ok
                    &&& r->Ok_0@ == uv
                    &&& spec_get(final(self).entries@, token@) == Some(
                        (
                            (spec_get(old(self).entries@, token@)->Some_0).0,
                            (now + old(self).timeout) as u64,
                        ),
                    )
                    &&& forall|t: Seq<char>|
                        t != token@ ==> #[trigger] spec_get(final(self).entries@, t) == spec_get(
                            old(self).entries@,
                            t,
                        )
                },
                Err(e) => r == Err::<User, SessionError>(e) && final(self).entries@ == old(
                    self,
                ).entries@,
            },
    {
        let i = match self.find_index(token) {
            None => {
                proof {
                    lemma_spec_get_none(self.entries@, token@);
                }
                return Err(SessionError::NotFound);
            },
            Some(i) => i,
        };
        proof {
            lemma_spec_get_at(self.entries@, token@, i as int);
        }
        if now >= self.entries[i].expires_at {
            return Err(SessionError::NotFound);
        }
        match parse_user(self.entries[i].payload.as_str()) {
            None => Err(SessionError::Corrupt),
            Some(u) => {
                let exp = now + self.timeout;
                self.entries[i].expires_at = exp;
                proof {
                    let e1 = old(self).entries@;
                    let e2 = self.entries@;
                    assert(forall|k: int|
                        0 <= k < e1.len() && k != i ==> #[trigger] e2[k] == e1[k]);
                    lemma_spec_get_at(e2, token@, i as int);
                    assert forall|t: Seq<char>| t != token@ implies #[trigger] spec_get(e2, t)
                        == spec_get(e1, t) by {
                        lemma_spec_get_frame(e1, e2, token@, t);
                    }
                }
                Ok(u)
            },
        }
    }

    /// Best-effort delete: afterwards the token maps to nothing, whether or
    /// not it mapped to anything before; every other token's entry is
    /// untouched.
    pub fn invalidate(&mut self, token: &str)
        requires
            old(self).wf(),
        ensures
            final(self).wf(),
            final(self).timeout == old(self).timeout,
            spec_get(final(self).entries@, token@) is None,
            forall|t: Seq<char>|
                t != token@ ==> #[trigger] spec_get(final(self).entries@, t) == spec_get(
                    old(self).entries@,
                    t,
                ),
    {
        match self.find_index(token) {
            None => {
                proof {
                    lemma_spec_get_none(self.entries@, token@);
                }
            },
            Some(i) => {
                self.entries.remove(i);
                proof {
                    let e1 = old(self).entries@;
                    let e2 = self.entries@;
                    assert(forall|j: int|
                        0 <= j < e1.len() && j != i ==> #[trigger] e1[j].token@
                            != e1[i as int].token@);
                    lemma_spec_get_remove(e1, i as int, token@);
                    assert forall|t: Seq<char>| t != token@ implies #[trigger] spec_get(e2, t)
                        == spec_get(e1, t) by {
                        lemma_spec_get_remove(e1, i as int, t);
                    }
                    assert forall|a: int, b: int|
                        0 <= a < b < e2.len() implies #[trigger] e2[a].token@ != #[trigger] e2[b].token@ by {
                        assert(e2 =~= e1.remove(i as int));
                    }
                }
            },
        }
    }
}

/// Law: an entry written from a user snapshot fetches back, before its
/// expiry, as exactly that snapshot — `create` then `fetch_and_refresh`
/// with the returned token yields the created user.
pub proof fn lemma_create_then_fetch(
    entries: Seq<SessionEntry>,
    token: Seq<char>,
    u: UserV,
    exp: u64,
    now: u64,
)
    requires
        spec_get(entries, token) == Some((spec_encode_user(u), exp)),
        now < exp,
        i32::MIN <= u.id <= i32::MAX,
        u.username.len() <= u64::MAX,
        u.password.len() <= u64::MAX,
    ensures
        spec_fetch(entries, token, now) == Ok::<UserV, SessionError>(u),
{
    crate::codec::lemma_user_codec_round_trip(u);
}

/// Law: a token that maps to nothing — never created, or deleted — fetches
/// as `NotFound`.
pub proof fn lemma_fetch_absent(entries: Seq<SessionEntry>, token: Seq<char>, now: u64)
    requires
        spec_get(entries, token) is None,
    ensures
        spec_fetch(entries, token, now) == Err::<UserV, SessionError>(SessionError::NotFound),
{
}

/// Law: sliding expiry.  After a fetch at `t1` resolves a session and resets
/// its expiry, a second fetch past the original expiry but before the
/// refreshed one still resolves the same user.
pub proof fn lemma_sliding_expiry(
    e1: Seq<SessionEntry>,
    e2: Seq<SessionEntry>,
    token: Seq<char>,
    payload: Seq<char>,
    exp1: u64,
    exp2: u64,
    t1: u64,
    t2: u64,
)
    requires
        spec_get(e1, token) == Some((payload, exp1)),
        t1 < exp1,
        spec_fetch(e1, token, t1) is Ok,
        spec_get(e2, token) == Some((payload, exp2)),
        exp1 <= t2 < exp2,
    ensures
        spec_fetch(e2, token, t2) == spec_fetch(e1, token, t1),
{
}

} // verus!
