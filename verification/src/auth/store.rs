//! The stored-record codec of the session store, and the verified halves
//! of its operations.
//!
//! A user is stored under its token as one string in a length-prefixed
//! format: the decimal user id, then the decimal character counts of the
//! three string fields, each terminated by `|`, then the three fields
//! themselves, concatenated. Prefixing the lengths keeps the format
//! unambiguous even when a field itself contains the separator, and
//! [`lemma_decode_encode`] proves that decoding inverts encoding for
//! every user.

use vstd::prelude::*;

use crate::auth::{User, UserV};
use crate::decimal::{
    canonical_digits, dec_digits, digits_val, lemma_canonical_digits_unique, lemma_dec_digits_wf,
    lemma_digits_val_nonneg, parse_dec, push_char, u64_to_dec,
};
use crate::errors::Error;

verus! {

/// The stored encoding of a user: `id | len(login) | len(avatar_url) |
/// len(name) |` followed by the three fields run together.
pub open spec fn encode_user_spec(u: UserV) -> Seq<char> {
    dec_digits(u.id as nat) + seq!['|'] + dec_digits(u.login.len()) + seq!['|'] + dec_digits(
        u.avatar_url.len(),
    ) + seq!['|'] + dec_digits(u.name.len()) + seq!['|'] + u.login + u.avatar_url + u.name
}

/// The position of the first `|` at or after `from`, or `-1` if there is
/// none.
pub open spec fn find_pipe(s: Seq<char>, from: int) -> int
    decreases s.len() - from,
{
    if from < 0 || from >= s.len() {
        -1
    } else if s[from] == '|' {
        from
    } else {
        find_pipe(s, from + 1)
    }
}

/// What `find_pipe` returns: the first separator at or after `from`.
pub proof fn lemma_find_pipe(s: Seq<char>, from: int)
    requires
        0 <= from <= s.len(),
    ensures
        find_pipe(s, from) >= 0 ==> {
            &&& from <= find_pipe(s, from) < s.len()
            &&& s[find_pipe(s, from)] == '|'
            &&& forall|j: int| from <= j < find_pipe(s, from) ==> s[j] != '|'
        },
        find_pipe(s, from) < 0 ==> forall|j: int| from <= j < s.len() ==> s[j] != '|',
    decreases s.len() - from,
{
    if from < s.len() && s[from] != '|' {
        lemma_find_pipe(s, from + 1);
    }
}

/// `find_pipe` finds a separator known to be first in its range.
pub proof fn lemma_find_pipe_at(s: Seq<char>, from: int, k: int)
    requires
        0 <= from <= k < s.len(),
        s[k] == '|',
        forall|j: int| from <= j < k ==> s[j] != '|',
    ensures
        find_pipe(s, from) == k,
    decreases k - from,
{
    if from < k {
        lemma_find_pipe_at(s, from + 1, k);
    }
}

/// Decodes a stored record, as a mathematical function: the inverse of
/// [`encode_user_spec`] where one exists, `None` everywhere else.
pub open spec fn decode_user_spec(s: Seq<char>) -> Option<UserV> {
    let p0 = find_pipe(s, 0);
    let p1 = find_pipe(s, p0 + 1);
    let p2 = find_pipe(s, p1 + 1);
    let p3 = find_pipe(s, p2 + 1);
    if p0 < 0 || p1 < 0 || p2 < 0 || p3 < 0 {
        None
    } else {
        let seg0 = s.subrange(0, p0);
        let seg1 = s.subrange(p0 + 1, p1);
        let seg2 = s.subrange(p1 + 1, p2);
        let seg3 = s.subrange(p2 + 1, p3);
        if !(canonical_digits(seg0) && canonical_digits(seg1) && canonical_digits(seg2)
            && canonical_digits(seg3)) {
            None
        } else {
            let id = digits_val(seg0);
            let l1 = digits_val(seg1);
            let l2 = digits_val(seg2);
            let l3 = digits_val(seg3);
            let rest = s.subrange(p3 + 1, s.len() as int);
            if id > u64::MAX || l1 + l2 + l3 != rest.len() {
                None
            } else {
                Some(
                    UserV {
                        id: id as u64,
                        login: rest.subrange(0, l1),
                        avatar_url: rest.subrange(l1, l1 + l2),
                        name: rest.subrange(l1 + l2, l1 + l2 + l3),
                    },
                )
            }
        }
    }
}

/// Decoding inverts encoding: every user is recovered, field for field,
/// from its stored form.
pub proof fn lemma_decode_encode(u: UserV)
    ensures
        decode_user_spec(encode_user_spec(u)) == Some(u),
{
    let a0 = dec_digits(u.id as nat);
    let a1 = dec_digits(u.login.len());
    let a2 = dec_digits(u.avatar_url.len());
    let a3 = dec_digits(u.name.len());
    let p: Seq<char> = seq!['|'];
    let s = encode_user_spec(u);
    lemma_dec_digits_wf(u.id as nat);
    lemma_dec_digits_wf(u.login.len());
    lemma_dec_digits_wf(u.avatar_url.len());
    lemma_dec_digits_wf(u.name.len());
    let p0 = a0.len() as int;
    let p1 = p0 + 1 + a1.len();
    let p2 = p1 + 1 + a2.len();
    let p3 = p2 + 1 + a3.len();
    assert(s == a0 + p + a1 + p + a2 + p + a3 + p + u.login + u.avatar_url + u.name);
    assert(s.len() == p3 + 1 + u.login.len() + u.avatar_url.len() + u.name.len());
    assert(s[p0] == '|' && s[p1] == '|' && s[p2] == '|' && s[p3] == '|');
    assert(forall|j: int| 0 <= j < p0 ==> s[j] == a0[j] && #[trigger] s[j] != '|');
    assert(forall|j: int|
        p0 + 1 <= j < p1 ==> s[j] == a1[j - p0 - 1] && #[trigger] s[j] != '|');
    assert(forall|j: int|
        p1 + 1 <= j < p2 ==> s[j] == a2[j - p1 - 1] && #[trigger] s[j] != '|');
    assert(forall|j: int|
        p2 + 1 <= j < p3 ==> s[j] == a3[j - p2 - 1] && #[trigger] s[j] != '|');
    lemma_find_pipe_at(s, 0, p0);
    lemma_find_pipe_at(s, p0 + 1, p1);
    lemma_find_pipe_at(s, p1 + 1, p2);
    lemma_find_pipe_at(s, p2 + 1, p3);
    assert(s.subrange(0, p0) =~= a0);
    assert(s.subrange(p0 + 1, p1) =~= a1);
    assert(s.subrange(p1 + 1, p2) =~= a2);
    assert(s.subrange(p2 + 1, p3) =~= a3);
    let rest = s.subrange(p3 + 1, s.len() as int);
    assert(rest =~= u.login + u.avatar_url + u.name);
    let l1 = u.login.len() as int;
    let l2 = u.avatar_url.len() as int;
    let l3 = u.name.len() as int;
    assert(rest.subrange(0, l1) =~= u.login);
    assert(rest.subrange(l1, l1 + l2) =~= u.avatar_url);
    assert(rest.subrange(l1 + l2, l1 + l2 + l3) =~= u.name);
    assert(decode_user_spec(s) == Some(
        UserV {
            id: u.id,
            login: rest.subrange(0, l1),
            avatar_url: rest.subrange(l1, l1 + l2),
            name: rest.subrange(l1 + l2, l1 + l2 + l3),
        },
    ));
}

/// Decoding is sound: a string that decodes at all is exactly the
/// encoding of the user it decodes to. Together with
/// [`lemma_decode_encode`] this makes the stored form canonical.
#[verifier::rlimit(60)]
pub proof fn lemma_decode_sound(s: Seq<char>, u: UserV)
    requires
        decode_user_spec(s) == Some(u),
    ensures
        s == encode_user_spec(u),
{
    let p0 = find_pipe(s, 0);
    lemma_find_pipe(s, 0);
    let p1 = find_pipe(s, p0 + 1);
    lemma_find_pipe(s, p0 + 1);
    let p2 = find_pipe(s, p1 + 1);
    lemma_find_pipe(s, p1 + 1);
    let p3 = find_pipe(s, p2 + 1);
    lemma_find_pipe(s, p2 + 1);
    let seg0 = s.subrange(0, p0);
    let seg1 = s.subrange(p0 + 1, p1);
    let seg2 = s.subrange(p1 + 1, p2);
    let seg3 = s.subrange(p2 + 1, p3);
    let rest = s.subrange(p3 + 1, s.len() as int);
    lemma_canonical_digits_unique(seg0);
    lemma_canonical_digits_unique(seg1);
    lemma_canonical_digits_unique(seg2);
    lemma_canonical_digits_unique(seg3);
    let l1 = digits_val(seg1);
    let l2 = digits_val(seg2);
    let l3 = digits_val(seg3);
    assert(u.login == rest.subrange(0, l1));
    assert(u.avatar_url == rest.subrange(l1, l1 + l2));
    assert(u.name == rest.subrange(l1 + l2, l1 + l2 + l3));
    assert(u.id as nat == digits_val(seg0));
    assert(dec_digits(u.id as nat) == seg0);
    assert(dec_digits(u.login.len()) == seg1);
    assert(dec_digits(u.avatar_url.len()) == seg2);
    assert(dec_digits(u.name.len()) == seg3);
    assert(rest =~= u.login + u.avatar_url + u.name);
    let h = seg0 + seq!['|'] + seg1 + seq!['|'] + seg2 + seq!['|'] + seg3 + seq!['|'];
    assert(h.len() == p3 + 1);
    assert(forall|j: int| 0 <= j < h.len() ==> #[trigger] h[j] == s[j]) by {
        assert(forall|j: int| 0 <= j < p0 ==> #[trigger] h[j] == seg0[j] && seg0[j] == s[j]);
        assert(forall|j: int|
            p0 + 1 <= j < p1 ==> #[trigger] h[j] == seg1[j - p0 - 1] && seg1[j - p0 - 1] == s[j]);
        assert(forall|j: int|
            p1 + 1 <= j < p2 ==> #[trigger] h[j] == seg2[j - p1 - 1] && seg2[j - p1 - 1] == s[j]);
        assert(forall|j: int|
            p2 + 1 <= j < p3 ==> #[trigger] h[j] == seg3[j - p2 - 1] && seg3[j - p2 - 1] == s[j]);
        assert(h[p0] == '|' && h[p1] == '|' && h[p2] == '|' && h[p3] == '|');
    }
    assert(s =~= h + rest);
    assert(h + rest =~= h + u.login + u.avatar_url + u.name);
    assert(encode_user_spec(u) =~= h + u.login + u.avatar_url + u.name);
}

/// A string the decoder rejects is the encoding of no user at all.
pub proof fn lemma_no_decode_no_user(s: Seq<char>)
    requires
        decode_user_spec(s) is None,
    ensures
        forall|u: UserV| encode_user_spec(u) != s,
{
    assert forall|u: UserV| encode_user_spec(u) != s by {
        lemma_decode_encode(u);
    }
}

/// Renders `user` in the stored-record format.
pub fn encode_user(user: &User) -> (r: String)
    ensures
        r@ == encode_user_spec(user@),
{
    let l1 = user.login.as_str().unicode_len();
    let l2 = user.avatar_url.as_str().unicode_len();
    let l3 = user.name.as_str().unicode_len();
    let mut out = u64_to_dec(user.id);
    push_char(&mut out, '|');
    let n1 = u64_to_dec(l1 as u64);
    out.append(n1.as_str());
    push_char(&mut out, '|');
    let n2 = u64_to_dec(l2 as u64);
    out.append(n2.as_str());
    push_char(&mut out, '|');
    let n3 = u64_to_dec(l3 as u64);
    out.append(n3.as_str());
    push_char(&mut out, '|');
    out.append(user.login.as_str());
    out.append(user.avatar_url.as_str());
    out.append(user.name.as_str());
    proof {
        assert(out@ =~= encode_user_spec(user@));
    }
    out
}

/// Finds the first separator at or after `from`, as executable code.
fn find_pipe_exec(s: &str, from: usize, n: usize) -> (r: Option<usize>)
    requires
        from <= n,
        n == s@.len(),
    ensures
        match r {
            Some(i) => from <= i < n && find_pipe(s@, from as int) == i,
            None => find_pipe(s@, from as int) < 0,
        },
{
    let mut i = from;
    while i < n
        invariant
            from <= i <= n,
            n == s@.len(),
            forall|j: int| from <= j < i ==> s@[j] != '|',
        decreases n - i,
    {
        if s.get_char(i) == '|' {
            proof {
                lemma_find_pipe_at(s@, from as int, i as int);
            }
            return Some(i);
        }
        i = i + 1;
    }
    proof {
        lemma_find_pipe(s@, from as int);
    }
    None
}

/// Decodes a stored record back into the user it names. Accepts exactly
/// the strings [`encode_user_spec`] produces; anything else — missing
/// separators, a malformed number, field lengths that do not add up — is
/// a malformed record and yields a serialization error.
pub fn decode_user(s: &str) -> (r: Result<User, Error>)
    ensures
        match r {
            Ok(u) => decode_user_spec(s@) == Some(u@) && s@ == encode_user_spec(u@),
            Err(e) => {
                &&& decode_user_spec(s@) is None
                &&& e matches Error::SerializationError(m)
                &&& (m@ == "Invalid data format"@ || m@ == "Invalid ID format"@)
            },
        },
{
    let n = s.unicode_len();
    let p0 = match find_pipe_exec(s, 0, n) {
        Some(i) => i,
        None => {
            return Err(Error::SerializationError("Invalid data format".to_owned()));
        },
    };
    let p1 = match find_pipe_exec(s, p0 + 1, n) {
        Some(i) => i,
        None => {
            return Err(Error::SerializationError("Invalid data format".to_owned()));
        },
    };
    let p2 = match find_pipe_exec(s, p1 + 1, n) {
        Some(i) => i,
        None => {
            return Err(Error::SerializationError("Invalid data format".to_owned()));
        },
    };
    let p3 = match find_pipe_exec(s, p2 + 1, n) {
        Some(i) => i,
        None => {
            return Err(Error::SerializationError("Invalid data format".to_owned()));
        },
    };
    let ghost seg0 = s@.subrange(0, p0 as int);
    let ghost seg1 = s@.subrange(p0 + 1, p1 as int);
    let ghost seg2 = s@.subrange(p1 + 1, p2 as int);
    let ghost seg3 = s@.subrange(p2 + 1, p3 as int);
    let ghost rest = s@.subrange(p3 + 1, s@.len() as int);
    let id = match parse_dec(s, 0, p0) {
        Some(v) => v,
        None => {
            return Err(Error::SerializationError("Invalid ID format".to_owned()));
        },
    };
    let l1 = match parse_dec(s, p0 + 1, p1) {
        Some(v) => v,
        None => {
            proof {
                lemma_oversized_segment(s@, seg1, seg2, seg3, rest);
            }
            return Err(Error::SerializationError("Invalid data format".to_owned()));
        },
    };
    let l2 = match parse_dec(s, p1 + 1, p2) {
        Some(v) => v,
        None => {
            proof {
                lemma_oversized_segment(s@, seg2, seg1, seg3, rest);
            }
            return Err(Error::SerializationError("Invalid data format".to_owned()));
        },
    };
    let l3 = match parse_dec(s, p2 + 1, p3) {
        Some(v) => v,
        None => {
            proof {
                lemma_oversized_segment(s@, seg3, seg1, seg2, rest);
            }
            return Err(Error::SerializationError("Invalid data format".to_owned()));
        },
    };
    proof {
        lemma_digits_val_nonneg(seg1);
        lemma_digits_val_nonneg(seg2);
        lemma_digits_val_nonneg(seg3);
    }
    let rem = n - (p3 + 1);
    if l1 > rem as u64 {
        return Err(Error::SerializationError("Invalid data format".to_owned()));
    }
    if l2 > rem as u64 - l1 {
        return Err(Error::SerializationError("Invalid data format".to_owned()));
    }
    if l3 != rem as u64 - l1 - l2 {
        return Err(Error::SerializationError("Invalid data format".to_owned()));
    }
    let f0 = p3 + 1;
    let a = l1 as usize;
    let b = l2 as usize;
    let c = l3 as usize;
    let login = s.substring_char(f0, f0 + a).to_owned();
    let avatar_url = s.substring_char(f0 + a, f0 + a + b).to_owned();
    let name = s.substring_char(f0 + a + b, f0 + a + b + c).to_owned();
    let user = User { id, name, avatar_url, login };
    proof {
        assert(login@ =~= rest.subrange(0, l1 as int));
        assert(avatar_url@ =~= rest.subrange(l1 as int, l1 + l2));
        assert(name@ =~= rest.subrange(l1 + l2, l1 + l2 + l3));
        assert(user@ =~= decode_user_spec(s@)->Some_0);
        lemma_decode_sound(s@, user@);
    }
    Ok(user)
}

/// When one of the three length numerals overflows a `u64`, the record
/// cannot be well-formed: the lengths could never add up to the length
/// of the remainder, which fits in a `usize`.
proof fn lemma_oversized_segment(
    s: Seq<char>,
    over: Seq<char>,
    other1: Seq<char>,
    other2: Seq<char>,
    rest: Seq<char>,
)
    requires
        rest.len() <= s.len() <= usize::MAX,
        canonical_digits(over) ==> digits_val(over) > u64::MAX,
    ensures
        !(canonical_digits(over) && canonical_digits(other1) && canonical_digits(other2))
            || digits_val(over) + digits_val(other1) + digits_val(other2) != rest.len(),
{
    if canonical_digits(over) && canonical_digits(other1) && canonical_digits(other2) {
        lemma_digits_val_nonneg(other1);
        lemma_digits_val_nonneg(other2);
        assert(digits_val(over) > u64::MAX >= usize::MAX >= rest.len());
    }
}

/// Relies on uuid::Uuid::new_v4 and uuid's Display rendering: a fresh
/// random version-4 UUID in its 36-character hyphenated lower-case form.
/// Nothing is assumed about which UUID comes back.
#[verifier::external_body]
fn fresh_token() -> (r: String)
    ensures
        r@.len() == 36,
{
    uuid::Uuid::new_v4().to_string()
}

/// The verified head of the store's `save`: mints a fresh random token
/// and renders the record to write under it. The backing write, under
/// the configured time to live, is the caller's to perform; a failure
/// there must fail the whole save.
pub fn prepare_record(user: &User) -> (r: (String, String))
    ensures
        r.0@.len() == 36,
        r.1@ == encode_user_spec(user@),
{
    (fresh_token(), encode_user(user))
}

/// The verified tail of the store's `get`: interprets what the backing
/// lookup returned. An absent or expired key is reported as not found
/// (this library folds "no such session" into the not-found kind); a
/// present record is decoded, and a malformed one is a serialization
/// error.
pub fn read_stored(found: Option<String>) -> (r: Result<User, Error>)
    ensures
        match found {
            None => r matches Err(e) && e matches Error::NotFound(m) && m@ == "session"@,
            Some(data) => match r {
                Ok(u) => decode_user_spec(data@) == Some(u@) && data@ == encode_user_spec(u@),
                Err(e) => decode_user_spec(data@) is None && e is SerializationError,
            },
        },
{
    match found {
        None => Err(Error::NotFound("session".to_owned())),
        Some(data) => decode_user(data.as_str()),
    }
}

} // verus!
