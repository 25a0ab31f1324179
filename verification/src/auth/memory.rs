//! An in-memory session store.
//!
//! [`InMemoryRepo`] implements the full [`Repo`] capability set against a
//! hash map and a fake clock, storing records in the same encoded form a
//! networked backing store would hold. It stands in for that store in
//! tests, and its knobs — [`InMemoryRepo::advance`] for TTL expiry,
//! [`InMemoryRepo::set_offline`] for connection failures,
//! [`InMemoryRepo::put_raw`] for corrupt records — reproduce the failure
//! modes the contracts speak about.

use vstd::prelude::*;

use crate::auth::store::{decode_user, decode_user_spec, encode_user};
use crate::auth::{Repo, User, UserV};
use crate::decimal::{dec_digits, digits_val, lemma_dec_digits_wf, u64_to_dec};
use crate::errors::Error;
use vstd::hash_map::StringHashMap;

verus! {

/// One stored record: the encoded user and the instant it expires.
struct StoredRecord {
    data: String,
    expires_at: u64,
}

/// A session store backed by process memory: a token-to-record map, a
/// counter that mints tokens, and a fake clock that only test knobs move.
pub struct InMemoryRepo {
    entries: StringHashMap<StoredRecord>,
    now: u64,
    ttl: u64,
    counter: u64,
    offline: Option<String>,
}

/// The token minted by the store's `k`-th save.
pub open spec fn mint_token_spec(k: nat) -> Seq<char> {
    "token-"@ + dec_digits(k)
}

/// Distinct saves mint distinct tokens: token generation is injective,
/// so any number of sessions receive pairwise distinct tokens.
pub proof fn lemma_token_uniqueness(i: nat, j: nat)
    requires
        i != j,
    ensures
        mint_token_spec(i) != mint_token_spec(j),
{
    lemma_dec_digits_wf(i);
    lemma_dec_digits_wf(j);
    if mint_token_spec(i) == mint_token_spec(j) {
        let p = "token-"@;
        let a = dec_digits(i);
        let b = dec_digits(j);
        assert((p + a).len() == (p + b).len());
        assert(a =~= b) by {
            assert(forall|x: int|
                0 <= x < a.len() ==> #[trigger] a[x] == (p + a)[p.len() + x] && (p + b)[p.len()
                    + x] == b[x]);
        }
        assert(digits_val(a) == digits_val(b));
        assert(false);
    }
}

/// `a + b`, stopping at the largest representable instant.
pub open spec fn sat_add(a: u64, b: u64) -> u64 {
    if a + b > u64::MAX {
        u64::MAX
    } else {
        (a + b) as u64
    }
}

fn sat_add_exec(a: u64, b: u64) -> (r: u64)
    ensures
        r == sat_add(a, b),
{
    if b > u64::MAX - a {
        u64::MAX
    } else {
        a + b
    }
}

fn mint_token(k: u64) -> (r: String)
    ensures
        r@ == mint_token_spec(k as nat),
{
    let mut s = "token-".to_owned();
    let d = u64_to_dec(k);
    s.append(d.as_str());
    s
}

impl InMemoryRepo {
    /// Tokens are only ever minted by the counter, so a token the counter
    /// has not reached yet cannot be present; the clock stays below the
    /// largest instant so that a fresh record is never born expired.
    #[verifier::type_invariant]
    spec fn inv(self) -> bool {
        &&& self.ttl >= 1
        &&& self.now < u64::MAX
        &&& forall|t: Seq<char>|
            self.entries@.contains_key(t) ==> exists|k: nat|
                k < self.counter && t == mint_token_spec(k)
    }

    /// The store's clock, in seconds.
    pub closed spec fn now(&self) -> u64 {
        self.now
    }

    /// The time to live given to every record.
    pub closed spec fn ttl(&self) -> u64 {
        self.ttl
    }

    /// How many tokens have been minted.
    pub closed spec fn issued(&self) -> u64 {
        self.counter
    }

    /// The simulated connection failure, if one is switched on.
    pub closed spec fn offline_msg(&self) -> Option<Seq<char>> {
        match self.offline {
            Some(m) => Some(m@),
            None => None,
        }
    }

    /// A record is held under `t` and has not expired (it may still be
    /// malformed; live() additionally asks that it decodes).
    pub closed spec fn active(&self, t: Seq<char>) -> bool {
        self.entries@.contains_key(t) && self.entries@[t].expires_at > self.now
    }

    /// The instant the record under `t` expires; absent tokens report 0.
    pub closed spec fn expiry_of(&self, t: Seq<char>) -> u64 {
        if self.entries@.contains_key(t) {
            self.entries@[t].expires_at
        } else {
            0
        }
    }

    /// An empty store whose records will live `ttl` seconds of fake time.
    pub fn new(ttl: u64) -> (r: Self)
        requires
            ttl >= 1,
        ensures
            r.live() == Map::<Seq<char>, UserV>::empty(),
            r.now() == 0,
            r.ttl() == ttl,
            r.issued() == 0,
            r.offline_msg() is None,
    {
        let r = InMemoryRepo {
            entries: StringHashMap::new(),
            now: 0,
            ttl,
            counter: 0,
            offline: None,
        };
        proof {
            assert(r.live() =~= Map::<Seq<char>, UserV>::empty());
        }
        r
    }

    /// Moves the fake clock forward by `secs`, expiring every record
    /// whose instant has passed. The clock saturates one tick before the
    /// largest representable instant.
    pub fn advance(&mut self, secs: u64)
        ensures
            final(self).now() == if sat_add(old(self).now(), secs) == u64::MAX {
                (u64::MAX - 1) as u64
            } else {
                sat_add(old(self).now(), secs)
            },
            final(self).now() >= old(self).now(),
            forall|t: Seq<char>|
                final(self).live().contains_key(t) <==> old(self).live().contains_key(t) && old(
                    self,
                ).expiry_of(t) > final(self).now(),
            forall|t: Seq<char>|
                final(self).live().contains_key(t) ==> final(self).live()[t] == old(self).live()[t],
            forall|t: Seq<char>| final(self).expiry_of(t) == old(self).expiry_of(t),
            final(self).issued() == old(self).issued(),
            final(self).offline_msg() == old(self).offline_msg(),
    {
        proof {
            use_type_invariant(&*self);
        }
        let t = sat_add_exec(self.now, secs);
        self.now = if t == u64::MAX {
            u64::MAX - 1
        } else {
            t
        };
    }

    /// Switches the simulated backing connection off (`Some(msg)`) or on
    /// (`None`); while off, every operation fails with a connection
    /// error carrying `msg`.
    pub fn set_offline(&mut self, msg: Option<String>)
        ensures
            final(self).offline_msg() == match msg {
                Some(m) => Some(m@),
                None => None::<Seq<char>>,
            },
            final(self).live() == old(self).live(),
            final(self).now() == old(self).now(),
            final(self).issued() == old(self).issued(),
            forall|t: Seq<char>| final(self).expiry_of(t) == old(self).expiry_of(t),
    {
        proof {
            use_type_invariant(&*self);
        }
        self.offline = msg;
        proof {
            assert(self.live() =~= old(self).live());
        }
    }

    /// Stores `data` verbatim under a fresh token, bypassing the encoder:
    /// the knob with which tests plant a malformed record.
    pub fn put_raw(&mut self, data: String) -> (token: String)
        requires
            old(self).issued() < u64::MAX,
        ensures
            token@ == mint_token_spec(old(self).issued() as nat),
            final(self).issued() == old(self).issued() + 1,
            final(self).active(token@),
            final(self).expiry_of(token@) == sat_add(old(self).now(), old(self).ttl()),
            final(self).live() == match decode_user_spec(data@) {
                Some(uv) => old(self).live().insert(token@, uv),
                None => old(self).live(),
            },
            final(self).now() == old(self).now(),
            final(self).offline_msg() == old(self).offline_msg(),
    {
        proof {
            use_type_invariant(&*self);
        }
        let token = mint_token(self.counter);
        let expires_at = sat_add_exec(self.now, self.ttl);
        proof {
            assert(!self.entries@.contains_key(token@)) by {
                if self.entries@.contains_key(token@) {
                    let k = choose|k: nat| k < self.counter && token@ == mint_token_spec(k);
                    lemma_token_uniqueness(k, self.counter as nat);
                }
            }
        }
        let ghost d = data@;
        self.counter = self.counter + 1;
        let mut entries = StringHashMap::new();
        core::mem::swap(&mut self.entries, &mut entries);
        entries.insert(token.clone(), StoredRecord { data, expires_at });
        proof {
            assert forall|t: Seq<char>| entries@.contains_key(t) implies exists|k: nat|
                k < self.counter && t == mint_token_spec(k) by {
                if t == token@ {
                    assert((old(self).counter as nat) < self.counter && t == mint_token_spec(
                        old(self).counter as nat,
                    ));
                }
            }
        }
        core::mem::swap(&mut self.entries, &mut entries);
        proof {
            assert(expires_at > self.now);
            match decode_user_spec(d) {
                Some(uv) => {
                    assert(self.live() =~= old(self).live().insert(token@, uv));
                },
                None => {
                    assert(self.live() =~= old(self).live());
                },
            }
        }
        token
    }
}

/// TTL expiry: once the store's clock has reached a record's expiry
/// instant, its token is no longer live and no longer even active, so a
/// `get` of it is owed a not-found class answer — distinct from a
/// connection error — exactly as for a deleted token.
pub proof fn lemma_expired_not_live(r: &InMemoryRepo, t: Seq<char>)
    requires
        r.expiry_of(t) <= r.now(),
    ensures
        !r.active(t),
        !r.live().contains_key(t),
{
}

impl Repo for InMemoryRepo {
    /// A token is live when a record is held under it, the record has
    /// not expired, and it decodes back to a user.
    closed spec fn live(&self) -> Map<Seq<char>, UserV> {
        Map::new(
            |t: Seq<char>|
                self.entries@.contains_key(t) && self.entries@[t].expires_at > self.now
                    && decode_user_spec(self.entries@[t].data@) is Some,
            |t: Seq<char>| decode_user_spec(self.entries@[t].data@)->Some_0,
        )
    }

    /// Success is owed whenever the store is online and tokens remain to
    /// be minted; the record is then stored in encoded form under a
    /// token never handed out before.
    fn save(&mut self, user: User) -> (r: Result<String, Error>)
        ensures
            old(self).offline_msg() matches Some(m) ==> (r matches Err(e) && (e matches
                Error::ConnectionError(mm) && mm@ == m)),
            old(self).offline_msg() is None && old(self).issued() < u64::MAX ==> (r matches Ok(
                token,
            ) && {
                &&& token@ == mint_token_spec(old(self).issued() as nat)
                &&& final(self).issued() == old(self).issued() + 1
                &&& final(self).expiry_of(token@) == sat_add(old(self).now(), old(self).ttl())
            }),
            final(self).now() == old(self).now(),
            final(self).offline_msg() == old(self).offline_msg(),
    {
        proof {
            use_type_invariant(&*self);
        }
        match &self.offline {
            Some(m) => {
                return Err(Error::ConnectionError(m.clone()));
            },
            None => {},
        }
        if self.counter == u64::MAX {
            return Err(Error::ConnectionError("token counter exhausted".to_owned()));
        }
        let token = mint_token(self.counter);
        let data = encode_user(&user);
        let expires_at = sat_add_exec(self.now, self.ttl);
        proof {
            assert(!self.entries@.contains_key(token@)) by {
                if self.entries@.contains_key(token@) {
                    let k = choose|k: nat| k < self.counter && token@ == mint_token_spec(k);
                    lemma_token_uniqueness(k, self.counter as nat);
                }
            }
        }
        self.counter = self.counter + 1;
        let mut entries = StringHashMap::new();
        core::mem::swap(&mut self.entries, &mut entries);
        entries.insert(token.clone(), StoredRecord { data, expires_at });
        proof {
            assert forall|t: Seq<char>| entries@.contains_key(t) implies exists|k: nat|
                k < self.counter && t == mint_token_spec(k) by {
                if t == token@ {
                    assert((old(self).counter as nat) < self.counter && t == mint_token_spec(
                        old(self).counter as nat,
                    ));
                }
            }
        }
        core::mem::swap(&mut self.entries, &mut entries);
        proof {
            assert(expires_at > self.now);
            crate::auth::store::lemma_decode_encode(user@);
            assert(self.live() =~= old(self).live().insert(token@, user@));
        }
        Ok(token)
    }

    /// Success is owed whenever the store is online and the token is
    /// live. An absent or expired token is reported as not found; a
    /// planted malformed record as a serialization error.
    fn get(&self, token: String) -> (r: Result<User, Error>)
        ensures
            self.offline_msg() matches Some(m) ==> (r matches Err(e) && (e matches
                Error::ConnectionError(mm) && mm@ == m)),
            self.offline_msg() is None && !self.active(token@) ==> (r matches Err(e) && (e
                matches Error::NotFound(mm) && mm@ == "session"@)),
            self.offline_msg() is None && self.live().contains_key(token@) ==> r is Ok,
            self.offline_msg() is None && self.active(token@) && !self.live().contains_key(token@)
                ==> (r matches Err(e) && e is SerializationError),
    {
        match &self.offline {
            Some(m) => {
                return Err(Error::ConnectionError(m.clone()));
            },
            None => {},
        }
        match self.entries.get(token.as_str()) {
            None => Err(Error::NotFound("session".to_owned())),
            Some(rec) => {
                if rec.expires_at <= self.now {
                    Err(Error::NotFound("session".to_owned()))
                } else {
                    decode_user(rec.data.as_str())
                }
            },
        }
    }

    /// Success is owed whenever the store is online, whether or not the
    /// token was present.
    fn delete(&mut self, token: String) -> (r: Result<(), Error>)
        ensures
            old(self).offline_msg() matches Some(m) ==> (r matches Err(e) && (e matches
                Error::ConnectionError(mm) && mm@ == m)),
            old(self).offline_msg() is None ==> r is Ok,
            final(self).now() == old(self).now(),
            final(self).issued() == old(self).issued(),
            final(self).offline_msg() == old(self).offline_msg(),
    {
        proof {
            use_type_invariant(&*self);
        }
        match &self.offline {
            Some(m) => {
                return Err(Error::ConnectionError(m.clone()));
            },
            None => {},
        }
        let mut entries = StringHashMap::new();
        core::mem::swap(&mut self.entries, &mut entries);
        entries.remove(token.as_str());
        core::mem::swap(&mut self.entries, &mut entries);
        proof {
            assert(self.live() =~= old(self).live().remove(token@));
        }
        Ok(())
    }
}

} // verus!
