//! The session payload format.
//!
//! A session entry's value is the user snapshot written as plain text: the
//! decimal id (with a leading minus for negative ids), then the username and
//! the digest, each as a decimal character count followed by the characters
//! themselves.  A colon closes every decimal run, so `1:5:admin2:ab` encodes
//! the user with id 1, username `admin` and digest `ab`.  Parsing is exact:
//! anything that does not read back as a complete encoding is rejected.
use vstd::prelude::*;
use vstd::string::StrSliceExecFns;
use vstd::string::StringExecFns;

use crate::text::push_char;
use crate::user::{User, UserV};

verus! {

pub open spec fn is_digit(c: char) -> bool {
    c == '0' || c == '1' || c == '2' || c == '3' || c == '4' || c == '5' || c == '6' || c == '7'
        || c == '8' || c == '9'
}

pub open spec fn digit_val(c: char) -> nat {
    if c == '0' {
        0
    } else if c == '1' {
        1
    } else if c == '2' {
        2
    } else if c == '3' {
        3
    } else if c == '4' {
        4
    } else if c == '5' {
        5
    } else if c == '6' {
        6
    } else if c == '7' {
        7
    } else if c == '8' {
        8
    } else if c == '9' {
        9
    } else {
        10
    }
}

pub open spec fn digit_char(d: nat) -> char {
    if d == 0 {
        '0'
    } else if d == 1 {
        '1'
    } else if d == 2 {
        '2'
    } else if d == 3 {
        '3'
    } else if d == 4 {
        '4'
    } else if d == 5 {
        '5'
    } else if d == 6 {
        '6'
    } else if d == 7 {
        '7'
    } else if d == 8 {
        '8'
    } else {
        '9'
    }
}

/// The decimal digits of `n`, most significant first, with no leading zeros.
pub open spec fn dec_rep(n: nat) -> Seq<char>
    decreases n,
{
    if n < 10 {
        seq![digit_char(n)]
    } else {
        dec_rep(n / 10).push(digit_char(n % 10))
    }
}

/// The value of a run of decimal digits.
pub open spec fn dec_val(s: Seq<char>) -> nat
    decreases s.len(),
{
    if s.len() == 0 {
        0
    } else {
        dec_val(s.drop_last()) * 10 + digit_val(s.last())
    }
}

pub open spec fn all_digits(s: Seq<char>) -> bool {
    forall|i: int| 0 <= i < s.len() ==> is_digit(#[trigger] s[i])
}

/// The index of the first non-digit at or after `i`, or the length.
pub open spec fn digits_end(s: Seq<char>, i: int) -> int
    decreases s.len() - i,
    when 0 <= i <= s.len()
{
    if i == s.len() || !is_digit(s[i]) {
        i
    } else {
        digits_end(s, i + 1)
    }
}

/// A decimal run read at `i`: its value and the index after it, or nothing
/// when no digit stands at `i` or the value does not fit in 64 bits.
pub open spec fn spec_parse_dec(s: Seq<char>, i: int) -> Option<(nat, int)> {
    let e = digits_end(s, i);
    if e == i {
        None
    } else if dec_val(s.subrange(i, e)) > u64::MAX {
        None
    } else {
        Some((dec_val(s.subrange(i, e)), e))
    }
}

pub proof fn lemma_dec_rep(n: nat)
    ensures
        dec_rep(n).len() >= 1,
        all_digits(dec_rep(n)),
        dec_val(dec_rep(n)) == n,
    decreases n,
{
    if n < 10 {
        assert(seq![digit_char(n)].drop_last() =~= Seq::<char>::empty());
        assert(dec_val(Seq::<char>::empty()) == 0);
        assert(dec_val(dec_rep(n)) == digit_val(digit_char(n)));
    } else {
        lemma_dec_rep(n / 10);
        let head = dec_rep(n / 10);
        assert(dec_rep(n) == head.push(digit_char(n % 10)));
        assert(head.push(digit_char(n % 10)).drop_last() =~= head);
        assert(dec_val(dec_rep(n)) == (n / 10) * 10 + n % 10);
        assert((n / 10) * 10 + n % 10 == n) by {
            vstd::arithmetic::div_mod::lemma_fundamental_div_mod(n as int, 10);
        }
    }
}

pub proof fn lemma_digits_end(s: Seq<char>, i: int)
    requires
        0 <= i <= s.len(),
    ensures
        i <= digits_end(s, i) <= s.len(),
        forall|k: int| i <= k < digits_end(s, i) ==> is_digit(#[trigger] s[k]),
        digits_end(s, i) < s.len() ==> !is_digit(s[digits_end(s, i)]),
    decreases s.len() - i,
{
    if i == s.len() || !is_digit(s[i]) {
    } else {
        lemma_digits_end(s, i + 1);
    }
}

/// A run known to consist of digits and to stop at `e` has `e` as its end.
pub proof fn lemma_digits_end_is(s: Seq<char>, i: int, e: int)
    requires
        0 <= i <= e <= s.len(),
        forall|k: int| i <= k < e ==> is_digit(#[trigger] s[k]),
        e < s.len() ==> !is_digit(s[e]),
    ensures
        digits_end(s, i) == e,
    decreases e - i,
{
    if i < e {
        lemma_digits_end_is(s, i + 1, e);
    }
}

/// Extending a digit run to the right never lowers its value.
pub proof fn lemma_dec_val_prefix_le(s: Seq<char>, i: int, j: int, e: int)
    requires
        0 <= i <= j <= e <= s.len(),
    ensures
        dec_val(s.subrange(i, j)) <= dec_val(s.subrange(i, e)),
    decreases e - j,
{
    if j < e {
        lemma_dec_val_prefix_le(s, i, j, e - 1);
        assert(s.subrange(i, e).drop_last() =~= s.subrange(i, e - 1));
        assert(dec_val(s.subrange(i, e)) == dec_val(s.subrange(i, e - 1)) * 10 + digit_val(
            s.subrange(i, e).last(),
        ));
    }
}

fn is_digit_char(c: char) -> (r: bool)
    ensures
        r == is_digit(c),
{
    c == '0' || c == '1' || c == '2' || c == '3' || c == '4' || c == '5' || c == '6' || c == '7'
        || c == '8' || c == '9'
}

fn digit_value(c: char) -> (d: u64)
    requires
        is_digit(c),
    ensures
        d == digit_val(c),
{
    if c == '0' {
        0
    } else if c == '1' {
        1
    } else if c == '2' {
        2
    } else if c == '3' {
        3
    } else if c == '4' {
        4
    } else if c == '5' {
        5
    } else if c == '6' {
        6
    } else if c == '7' {
        7
    } else if c == '8' {
        8
    } else {
        9
    }
}

fn digit_char_of(d: u64) -> (c: char)
    requires
        d < 10,
    ensures
        c == digit_char(d as nat),
{
    if d == 0 {
        '0'
    } else if d == 1 {
        '1'
    } else if d == 2 {
        '2'
    } else if d == 3 {
        '3'
    } else if d == 4 {
        '4'
    } else if d == 5 {
        '5'
    } else if d == 6 {
        '6'
    } else if d == 7 {
        '7'
    } else if d == 8 {
        '8'
    } else {
        '9'
    }
}

/// Appends the decimal digits of `n`.
pub fn push_dec(out: &mut String, n: u64)
    ensures
        final(out)@ == old(out)@ + dec_rep(n as nat),
    decreases n,
{
    if n < 10 {
        push_char(out, digit_char_of(n));
        proof {
            assert(final(out)@ =~= old(out)@ + dec_rep(n as nat));
        }
    } else {
        push_dec(out, n / 10);
        push_char(out, digit_char_of(n % 10));
        proof {
            assert(final(out)@ =~= old(out)@ + dec_rep(n as nat));
        }
    }
}

/// Reads a decimal run at `from`, as `spec_parse_dec` describes it.
pub fn parse_dec(s: &str, from: usize) -> (r: Option<(u64, usize)>)
    requires
        from <= s@.len(),
    ensures
        match spec_parse_dec(s@, from as int) {
            None => r is None,
            Some((v, e)) => r == Some((v as u64, e as usize)) && from < e <= s@.len(),
        },
{
    let len = s.unicode_len();
    proof {
        lemma_digits_end(s@, from as int);
    }
    if from == len || !is_digit_char(s.get_char(from)) {
        return None;
    }
    let mut j = from;
    let mut acc: u64 = 0;
    loop
        invariant
            from <= j <= len,
            len == s@.len(),
            forall|k: int| from <= k < j ==> is_digit(#[trigger] s@[k]),
            acc == dec_val(s@.subrange(from as int, j as int)),
        ensures
            from <= j <= len,
            forall|k: int| from <= k < j ==> is_digit(#[trigger] s@[k]),
            acc == dec_val(s@.subrange(from as int, j as int)),
            j == len || !is_digit(s@[j as int]),
        decreases len - j,
    {
        if j == len {
            break;
        }
        let c = s.get_char(j);
        if !is_digit_char(c) {
            break;
        }
        let d = digit_value(c);
        proof {
            assert(s@.subrange(from as int, j + 1).drop_last() =~= s@.subrange(
                from as int,
                j as int,
            ));
            assert(dec_val(s@.subrange(from as int, j + 1)) == acc * 10 + digit_val(c));
        }
        if acc > (u64::MAX - d) / 10 {
            proof {
                lemma_digits_end(s@, from as int);
                let e = digits_end(s@, from as int);
                assert(j + 1 <= e);
                lemma_dec_val_prefix_le(s@, from as int, j + 1, e);
                assert(acc * 10 + d > u64::MAX);
            }
            return None;
        }
        acc = acc * 10 + d;
        j = j + 1;
    }
    proof {
        lemma_digits_end_is(s@, from as int, j as int);
    }
    Some((acc, j))
}

/// The id written in decimal, with a leading minus when negative.
pub open spec fn spec_encode_id(id: int) -> Seq<char> {
    if id < 0 {
        seq!['-'] + dec_rep((-id) as nat)
    } else {
        dec_rep(id as nat)
    }
}

/// The payload text for a user snapshot.
pub open spec fn spec_encode_user(u: UserV) -> Seq<char> {
    spec_encode_id(u.id) + seq![':'] + dec_rep(u.username.len()) + seq![':'] + u.username + dec_rep(
        u.password.len(),
    ) + seq![':'] + u.password
}

/// The user snapshot a payload text reads back as, if it is a complete
/// encoding with the id in range.
pub open spec fn spec_parse_user(s: Seq<char>) -> Option<UserV> {
    let neg = s.len() > 0 && s[0] == '-';
    let i0: int = if neg {
        1
    } else {
        0
    };
    match spec_parse_dec(s, i0) {
        None => None,
        Some((mag, i1)) => {
            let id: int = if neg {
                -(mag as int)
            } else {
                mag as int
            };
            if !(i32::MIN <= id <= i32::MAX) {
                None
            } else if i1 == s.len() || s[i1] != ':' {
                None
            } else {
                match spec_parse_dec(s, i1 + 1) {
                    None => None,
                    Some((ulen, i2)) => {
                        if i2 == s.len() || s[i2] != ':' {
                            None
                        } else if i2 + 1 + ulen > s.len() {
                            None
                        } else {
                            let i3 = i2 + 1 + ulen;
                            match spec_parse_dec(s, i3) {
                                None => None,
                                Some((plen, i4)) => {
                                    if i4 == s.len() || s[i4] != ':' {
                                        None
                                    } else if i4 + 1 + plen != s.len() {
                                        None
                                    } else {
                                        Some(
                                            UserV {
                                                id,
                                                username: s.subrange(i2 + 1, i3),
                                                password: s.subrange(i4 + 1, s.len() as int),
                                            },
                                        )
                                    }
                                },
                            }
                        }
                    },
                }
            }
        },
    }
}

/// A decimal run standing at `i`, closed by a non-digit, reads back as its
/// value.
proof fn lemma_parse_dec_at(s: Seq<char>, i: int, v: nat)
    requires
        0 <= i,
        v <= u64::MAX,
        i + dec_rep(v).len() <= s.len(),
        s.subrange(i, i + dec_rep(v).len() as int) == dec_rep(v),
        i + dec_rep(v).len() == s.len() || !is_digit(s[i + dec_rep(v).len()]),
    ensures
        spec_parse_dec(s, i) == Some((v, i + dec_rep(v).len() as int)),
{
    lemma_dec_rep(v);
    let e = i + dec_rep(v).len() as int;
    assert forall|k: int| i <= k < e implies is_digit(#[trigger] s[k]) by {
        assert(s[k] == s.subrange(i, e)[k - i]);
    }
    lemma_digits_end_is(s, i, e);
}

/// Law: the payload format round-trips.  Any user snapshot whose id fits a
/// 32-bit integer and whose strings have machine-representable lengths parses
/// back, from its own encoding, to exactly itself.
pub proof fn lemma_user_codec_round_trip(u: UserV)
    requires
        i32::MIN <= u.id <= i32::MAX,
        u.username.len() <= u64::MAX,
        u.password.len() <= u64::MAX,
    ensures
        spec_parse_user(spec_encode_user(u)) == Some(u),
{
    let s = spec_encode_user(u);
    let mag: nat = if u.id < 0 {
        (-u.id) as nat
    } else {
        u.id as nat
    };
    let a = spec_encode_id(u.id);
    let b = dec_rep(u.username.len());
    let c = dec_rep(u.password.len());
    lemma_dec_rep(mag);
    lemma_dec_rep(u.username.len());
    lemma_dec_rep(u.password.len());
    let i0: int = if u.id < 0 {
        1
    } else {
        0
    };
    let d0 = a.len() as int;
    let b0 = d0 + 1;
    let d1 = b0 + b.len();
    let u0 = d1 + 1;
    let c0 = u0 + u.username.len();
    let d2 = c0 + c.len();
    let p0 = d2 + 1;
    assert(s.len() == d2 + 1 + u.password.len());
    assert(!is_digit(':'));
    assert(!is_digit('-'));
    if u.id < 0 {
        assert(s[0] == '-');
    } else {
        assert(s[0] == dec_rep(mag)[0]);
        assert(is_digit(s[0]));
    }
    assert(s.subrange(i0, d0) =~= dec_rep(mag));
    assert(s[d0] == ':');
    lemma_parse_dec_at(s, i0, mag);
    assert(spec_parse_dec(s, i0) == Some((mag, d0)));
    let id: int = if u.id < 0 {
        -(mag as int)
    } else {
        mag as int
    };
    assert(id == u.id);
    assert(s.subrange(b0, d1) =~= b);
    assert(s[d1] == ':');
    lemma_parse_dec_at(s, b0, u.username.len());
    assert(spec_parse_dec(s, b0) == Some((u.username.len(), d1)));
    assert(s.subrange(u0, c0) =~= u.username);
    assert(s.subrange(c0, d2) =~= c);
    assert(s[d2] == ':');
    lemma_parse_dec_at(s, c0, u.password.len());
    assert(spec_parse_dec(s, c0) == Some((u.password.len(), d2)));
    assert(s.subrange(p0, s.len() as int) =~= u.password);
    assert(spec_parse_user(s) == Some(u));
}

/// Writes the payload text for a user snapshot.
pub fn encode_user(u: &User) -> (r: String)
    ensures
        r@ == spec_encode_user(u@),
{
    let mut out = String::new();
    if u.id < 0 {
        push_char(&mut out, '-');
        push_dec(&mut out, (-(u.id as i64)) as u64);
    } else {
        push_dec(&mut out, u.id as u64);
    }
    push_char(&mut out, ':');
    let ulen = u.username.as_str().unicode_len();
    push_dec(&mut out, ulen as u64);
    push_char(&mut out, ':');
    out.append(u.username.as_str());
    let plen = u.password.as_str().unicode_len();
    push_dec(&mut out, plen as u64);
    push_char(&mut out, ':');
    out.append(u.password.as_str());
    proof {
        assert(out@ =~= spec_encode_user(u@));
    }
    out
}

/// Reads a payload text back into a user snapshot, as `spec_parse_user`
/// describes it.
pub fn parse_user(s: &str) -> (r: Option<User>)
    ensures
        match spec_parse_user(s@) {
            None => r is None,
            Some(uv) => r is Some && r->Some_0@ == uv,
        },
{
    let len = s.unicode_len();
    let neg = len > 0 && s.get_char(0) == '-';
    let i0: usize = if neg {
        1
    } else {
        0
    };
    let (mag, i1) = match parse_dec(s, i0) {
        None => {
            return None;
        },
        Some(p) => p,
    };
    let id: i32;
    if neg {
        if mag > 2147483648u64 {
            return None;
        }
        id = (-(mag as i64)) as i32;
    } else {
        if mag > 2147483647u64 {
            return None;
        }
        id = mag as i32;
    }
    if i1 == len {
        return None;
    }
    if s.get_char(i1) != ':' {
        return None;
    }
    let (ulen, i2) = match parse_dec(s, i1 + 1) {
        None => {
            return None;
        },
        Some(p) => p,
    };
    if i2 == len {
        return None;
    }
    if s.get_char(i2) != ':' {
        return None;
    }
    if ulen > (len as u64) - (i2 as u64) - 1 {
        return None;
    }
    let i3 = i2 + 1 + (ulen as usize);
    let username = s.substring_char(i2 + 1, i3).to_owned();
    let (plen, i4) = match parse_dec(s, i3) {
        None => {
            return None;
        },
        Some(p) => p,
    };
    if i4 == len {
        return None;
    }
    if s.get_char(i4) != ':' {
        return None;
    }
    if plen != (len as u64) - (i4 as u64) - 1 {
        return None;
    }
    let password = s.substring_char(i4 + 1, len).to_owned();
    Some(User { id, username, password })
}

} // verus!
