//! Users, sessions, and the session-management capabilities.
//!
//! A [`User`] is the identity snapshot obtained from the provider; a
//! [`Session`] pairs it with the opaque bearer token under which it is
//! stored. The [`Repo`] trait is the capability set of a session store
//! (create, read, delete); [`DefaultSessionManager`] narrows it to the
//! read/invalidate pair that callers outside the subsystem receive.

pub mod github;
pub mod memory;
pub mod store;

use vstd::prelude::*;

use crate::errors::Error;

verus! {

/// Identity snapshot of an authenticated user. Immutable once created
/// from provider data; a plain value that is copied freely.
#[derive(Debug, Clone)]
pub struct User {
    pub id: u64,
    pub name: String,
    pub avatar_url: String,
    pub login: String,
}

/// The mathematical value of a [`User`]: the same four fields with the
/// strings abstracted to character sequences.
#[verifier::ext_equal]
pub struct UserV {
    pub id: u64,
    pub name: Seq<char>,
    pub avatar_url: Seq<char>,
    pub login: Seq<char>,
}

impl View for User {
    type V = UserV;

    open spec fn view(&self) -> UserV {
        UserV { id: self.id, name: self.name@, avatar_url: self.avatar_url@, login: self.login@ }
    }
}

/// A successful login: the authenticated user together with the opaque
/// session token that was minted for it. Created exactly once per login
/// and never mutated; the token is the only credential sent to clients.
#[derive(Debug, Clone)]
pub struct Session {
    pub user: User,
    pub token: String,
}

/// The mathematical value of a [`Session`].
pub struct SessionV {
    pub user: UserV,
    pub token: Seq<char>,
}

impl View for Session {
    type V = SessionV;

    open spec fn view(&self) -> SessionV {
        SessionV { user: self.user@, token: self.token@ }
    }
}

/// The capability set of a session store: create a record under a fresh
/// token, read one back, delete one. `live()` is the map of tokens that
/// are currently retrievable to the users they name; every operation is
/// specified against it.
pub trait Repo: Sized {
    /// The records a `get` can currently retrieve: token to stored user.
    spec fn live(&self) -> Map<Seq<char>, UserV>;

    /// Stores `user` under a fresh token with the configured time to
    /// live and returns the token. On a backing failure nothing is
    /// stored and a connection error is reported.
    fn save(&mut self, user: User) -> (r: Result<String, Error>)
        ensures
            match r {
                Ok(token) => !old(self).live().contains_key(token@) && final(self).live() == old(
                    self,
                ).live().insert(token@, user@),
                Err(e) => e is ConnectionError && final(self).live() == old(self).live(),
            },
    ;

    /// Looks `token` up. An absent or expired token yields a not-found
    /// class error; a malformed stored record a serialization error; a
    /// backing failure a connection error.
    fn get(&self, token: String) -> (r: Result<User, Error>)
        ensures
            match r {
                Ok(u) => self.live().contains_key(token@) && self.live()[token@] == u@,
                Err(e) => {
                    &&& !(e is ConnectionError) ==> !self.live().contains_key(token@)
                    &&& e is ConnectionError || e is NotFound || e is SerializationError
                },
            },
    ;

    /// Removes the record under `token`; removing an absent token is not
    /// an error. Only a backing failure is reported, and then nothing
    /// was removed.
    fn delete(&mut self, token: String) -> (r: Result<(), Error>)
        ensures
            match r {
                Ok(()) => final(self).live() == old(self).live().remove(token@),
                Err(e) => e is ConnectionError && final(self).live() == old(self).live(),
            },
    ;
}

/// Round trip through a session store: a successful `save` of `u` ends
/// with the store's live map gaining `token -> u@` (its ensures), and on
/// such a map a `get` of the token is owed `Ok`, with exactly the saved
/// user, field for field — until the record expires or is deleted, which
/// remove the token from the live map.
pub proof fn lemma_save_then_get(before: Map<Seq<char>, UserV>, token: Seq<char>, u: UserV)
    ensures
        before.insert(token, u).contains_key(token),
        before.insert(token, u)[token] == u,
{
}

/// Invalidation: a successful `delete` (or `logout`) of a token ends
/// with the store's live map losing it (its ensures), and on such a map
/// a `get` of the token is no longer owed success — by the `get`
/// contract it reports the token absent, distinctly from a connection
/// error. Deleting one token disturbs no other record.
pub proof fn lemma_delete_then_get(before: Map<Seq<char>, UserV>, token: Seq<char>)
    ensures
        !before.remove(token).contains_key(token),
        forall|t: Seq<char>|
            t != token ==> before.remove(token).contains_key(t) == before.contains_key(t),
        forall|t: Seq<char>|
            t != token && before.contains_key(t) ==> before.remove(token)[t] == before[t],
{
}

/// The narrowed capability handed to the rest of the platform: read a
/// session back, or invalidate one. It holds no state of its own, only
/// the store it delegates to, and cannot mint tokens.
pub struct DefaultSessionManager<R: Repo> {
    repo: R,
}

impl<R: Repo> DefaultSessionManager<R> {
    /// The session records currently retrievable through this manager.
    pub closed spec fn live(&self) -> Map<Seq<char>, UserV> {
        self.repo.live()
    }

    /// Wraps a session store.
    pub fn new(repo: R) -> (r: Self)
        ensures
            r.live() == repo.live(),
    {
        DefaultSessionManager { repo }
    }

    /// Reads the user behind `token`; a pure pass-through to the store's
    /// `get`.
    pub fn session(&self, token: String) -> (r: Result<User, Error>)
        ensures
            match r {
                Ok(u) => self.live().contains_key(token@) && self.live()[token@] == u@,
                Err(e) => {
                    &&& !(e is ConnectionError) ==> !self.live().contains_key(token@)
                    &&& e is ConnectionError || e is NotFound || e is SerializationError
                },
            },
    {
        self.repo.get(token)
    }

    /// The rule behind every authenticated endpoint: a request without a
    /// session cookie is denied outright; one with a cookie is answered
    /// by looking its value up as a token. The transport only extracts
    /// the cookie value and hands it over.
    pub fn load_user(&self, cookie: Option<String>) -> (r: Result<User, Error>)
        ensures
            cookie is None ==> (r matches Err(e) && (e matches Error::PermissionDenied(m) && m@
                == "no session found"@)),
            cookie matches Some(t) ==> match r {
                Ok(u) => self.live().contains_key(t@) && self.live()[t@] == u@,
                Err(e) => {
                    &&& !(e is ConnectionError) ==> !self.live().contains_key(t@)
                    &&& e is ConnectionError || e is NotFound || e is SerializationError
                },
            },
    {
        match cookie {
            Some(token) => self.session(token),
            None => Err(Error::PermissionDenied("no session found".to_owned())),
        }
    }

    /// Invalidates `token`; a pure pass-through to the store's `delete`.
    pub fn logout(&mut self, token: String) -> (r: Result<(), Error>)
        ensures
            match r {
                Ok(()) => final(self).live() == old(self).live().remove(token@),
                Err(e) => e is ConnectionError && final(self).live() == old(self).live(),
            },
    {
        self.repo.delete(token)
    }
}

} // verus!
