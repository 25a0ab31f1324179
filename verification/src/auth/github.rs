//! The OAuth2 login orchestration against the GitHub identity provider.
//!
//! The provider is reached over the network, so the protocol is verified
//! as a state machine: [`GithubAuthenticator::login_step`] consumes the
//! outcome of one remote step — code-for-token exchange, profile fetch,
//! membership fetch, store write — and decides the next state. The
//! transport performs whatever the current state awaits and feeds the
//! outcome back, until the machine completes or fails. Every decision of
//! the protocol (error mapping, the empty-token rule, the
//! organization-membership gate, the order of the steps) lives here and
//! is pinned by [`step_model`].

use vstd::prelude::*;

use crate::auth::{Session, SessionV, User, UserV};
use crate::errors::{Error, ErrorV};

verus! {

/// The provider's answer to the code-for-token exchange. A provider-
/// reported failure arrives as a non-empty `error` field, possibly with
/// a 200 status; absent fields arrive as empty strings.
pub struct GithubAccessToken {
    pub access_token: String,
    pub error: String,
    pub error_description: String,
}

/// The mathematical value of a [`GithubAccessToken`].
pub struct GithubAccessTokenV {
    pub access_token: Seq<char>,
    pub error: Seq<char>,
    pub error_description: Seq<char>,
}

impl View for GithubAccessToken {
    type V = GithubAccessTokenV;

    open spec fn view(&self) -> GithubAccessTokenV {
        GithubAccessTokenV {
            access_token: self.access_token@,
            error: self.error@,
            error_description: self.error_description@,
        }
    }
}

/// The authenticated user's profile as the provider reports it.
pub struct GithubUser {
    pub login: String,
    pub id: u64,
    pub name: String,
    pub avatar_url: String,
}

/// The mathematical value of a [`GithubUser`].
pub struct GithubUserV {
    pub login: Seq<char>,
    pub id: u64,
    pub name: Seq<char>,
    pub avatar_url: Seq<char>,
}

impl View for GithubUser {
    type V = GithubUserV;

    open spec fn view(&self) -> GithubUserV {
        GithubUserV {
            login: self.login@,
            id: self.id,
            name: self.name@,
            avatar_url: self.avatar_url@,
        }
    }
}

/// One organization membership as the provider reports it.
pub struct GithubOrg {
    pub login: String,
}

/// The mathematical value of a [`GithubOrg`].
pub struct GithubOrgV {
    pub login: Seq<char>,
}

impl View for GithubOrg {
    type V = GithubOrgV;

    open spec fn view(&self) -> GithubOrgV {
        GithubOrgV { login: self.login@ }
    }
}

/// How a remote fetch can fail before this library sees a value: the
/// transport failed, or the response body did not parse.
pub enum FetchFailure {
    Transport(String),
    Parse(String),
}

/// The mathematical value of a [`FetchFailure`].
pub enum FetchFailureV {
    Transport(Seq<char>),
    Parse(Seq<char>),
}

impl View for FetchFailure {
    type V = FetchFailureV;

    open spec fn view(&self) -> FetchFailureV {
        match self {
            FetchFailure::Transport(m) => FetchFailureV::Transport(m@),
            FetchFailure::Parse(m) => FetchFailureV::Parse(m@),
        }
    }
}

/// Where a login attempt stands: which remote outcome it awaits, or how
/// it ended. The transport drives the machine by performing the awaited
/// call and handing the outcome to [`GithubAuthenticator::login_step`].
pub enum LoginState {
    AwaitingToken,
    AwaitingProfile { access_token: String },
    AwaitingOrgs { access_token: String, user: User },
    AwaitingSave { user: User },
    Complete { session: Session },
    Failed { error: Error },
}

/// The mathematical value of a [`LoginState`].
pub enum LoginStateV {
    AwaitingToken,
    AwaitingProfile { access_token: Seq<char> },
    AwaitingOrgs { access_token: Seq<char>, user: UserV },
    AwaitingSave { user: UserV },
    Complete { session: SessionV },
    Failed { error: ErrorV },
}

impl View for LoginState {
    type V = LoginStateV;

    open spec fn view(&self) -> LoginStateV {
        match self {
            LoginState::AwaitingToken => LoginStateV::AwaitingToken,
            LoginState::AwaitingProfile { access_token } => LoginStateV::AwaitingProfile {
                access_token: access_token@,
            },
            LoginState::AwaitingOrgs { access_token, user } => LoginStateV::AwaitingOrgs {
                access_token: access_token@,
                user: user@,
            },
            LoginState::AwaitingSave { user } => LoginStateV::AwaitingSave { user: user@ },
            LoginState::Complete { session } => LoginStateV::Complete { session: session@ },
            LoginState::Failed { error } => LoginStateV::Failed { error: error@ },
        }
    }
}

/// The outcome of the remote step the machine was awaiting.
pub enum LoginEvent {
    TokenResult(Result<GithubAccessToken, FetchFailure>),
    ProfileResult(Result<GithubUser, FetchFailure>),
    OrgsResult(Result<Vec<GithubOrg>, FetchFailure>),
    SaveResult(Result<String, Error>),
}

/// The mathematical value of a [`LoginEvent`].
pub enum LoginEventV {
    TokenResult(Result<GithubAccessTokenV, FetchFailureV>),
    ProfileResult(Result<GithubUserV, FetchFailureV>),
    OrgsResult(Result<Seq<GithubOrgV>, FetchFailureV>),
    SaveResult(Result<Seq<char>, ErrorV>),
}

impl View for LoginEvent {
    type V = LoginEventV;

    open spec fn view(&self) -> LoginEventV {
        match self {
            LoginEvent::TokenResult(r) => LoginEventV::TokenResult(
                match r {
                    Ok(t) => Ok(t@),
                    Err(f) => Err(f@),
                },
            ),
            LoginEvent::ProfileResult(r) => LoginEventV::ProfileResult(
                match r {
                    Ok(p) => Ok(p@),
                    Err(f) => Err(f@),
                },
            ),
            LoginEvent::OrgsResult(r) => LoginEventV::OrgsResult(
                match r {
                    Ok(v) => Ok(v@.map_values(|o: GithubOrg| o@)),
                    Err(f) => Err(f@),
                },
            ),
            LoginEvent::SaveResult(r) => LoginEventV::SaveResult(
                match r {
                    Ok(s) => Ok(s@),
                    Err(e) => Err(e@),
                },
            ),
        }
    }
}

/// The user constructed from a fetched profile.
pub open spec fn user_of(p: GithubUserV) -> UserV {
    UserV { id: p.id, name: p.name, avatar_url: p.avatar_url, login: p.login }
}

impl GithubUser {
    /// Builds the identity snapshot this library keeps from the profile
    /// the provider returned.
    pub fn to_user(self) -> (r: User)
        ensures
            r@ == user_of(self@),
    {
        User { id: self.id, name: self.name, avatar_url: self.avatar_url, login: self.login }
    }
}

/// The code-for-token exchange counts as accepted when the provider
/// reported no error and handed back a non-empty access token.
pub open spec fn token_accepted(t: GithubAccessTokenV) -> bool {
    t.error.len() == 0 && t.access_token.len() > 0
}

/// Does `org` appear, case-sensitively and exactly, among `orgs`?
pub open spec fn contains_org(orgs: Seq<GithubOrgV>, org: Seq<char>) -> bool {
    exists|i: int| 0 <= i < orgs.len() && orgs[i].login == org
}

/// One transition of the login protocol: from the state that awaited a
/// remote outcome and the outcome itself to the next state. A terminal
/// state, or an event that is not the one awaited, leaves the state
/// unchanged.
pub open spec fn step_model(org: Seq<char>, state: LoginStateV, event: LoginEventV) -> LoginStateV {
    match (state, event) {
        (LoginStateV::AwaitingToken, LoginEventV::TokenResult(r)) => match r {
            Err(FetchFailureV::Transport(m)) => LoginStateV::Failed {
                error: ErrorV::ConnectionError("getting access_token: "@ + m),
            },
            Err(FetchFailureV::Parse(m)) => LoginStateV::Failed {
                error: ErrorV::SerializationError("reading access_token: "@ + m),
            },
            Ok(t) => if t.error.len() > 0 {
                LoginStateV::Failed {
                    error: ErrorV::PermissionDenied(t.error_description + " ("@ + t.error + ")"@),
                }
            } else if t.access_token.len() == 0 {
                LoginStateV::Failed { error: ErrorV::PermissionDenied("access token is empty"@) }
            } else {
                LoginStateV::AwaitingProfile { access_token: t.access_token }
            },
        },
        (LoginStateV::AwaitingProfile { access_token }, LoginEventV::ProfileResult(r)) => match r {
            Err(FetchFailureV::Transport(m)) => LoginStateV::Failed {
                error: ErrorV::ConnectionError("getting user: "@ + m),
            },
            Err(FetchFailureV::Parse(m)) => LoginStateV::Failed {
                error: ErrorV::SerializationError("reading user: "@ + m),
            },
            Ok(p) => LoginStateV::AwaitingOrgs { access_token, user: user_of(p) },
        },
        (LoginStateV::AwaitingOrgs { access_token: _, user }, LoginEventV::OrgsResult(r)) => match r {
            Err(FetchFailureV::Transport(m)) => LoginStateV::Failed {
                error: ErrorV::ConnectionError("getting org: "@ + m),
            },
            Err(FetchFailureV::Parse(m)) => LoginStateV::Failed {
                error: ErrorV::SerializationError("reading org: "@ + m),
            },
            Ok(orgs) => if contains_org(orgs, org) {
                LoginStateV::AwaitingSave { user }
            } else {
                LoginStateV::Failed {
                    error: ErrorV::PermissionDenied("not a member of "@ + org),
                }
            },
        },
        (LoginStateV::AwaitingSave { user }, LoginEventV::SaveResult(r)) => match r {
            Ok(token) => LoginStateV::Complete { session: SessionV { user, token } },
            Err(e) => LoginStateV::Failed { error: ErrorV::ConnectionError(e.message_spec()) },
        },
        (s, _) => s,
    }
}

/// The authorization URL the browser is redirected to.
pub open spec fn start_login_url_spec(cfg: AuthConfigV) -> Seq<char> {
    cfg.url + "/login/oauth/authorize?client_id="@ + cfg.client_id
        + "&scope=read:user,read:org&redirect_uri="@ + cfg.base_url + "/auth/login/callback"@
}

/// `needle` occurs contiguously somewhere in `hay`.
pub open spec fn contains_seq(hay: Seq<char>, needle: Seq<char>) -> bool {
    exists|i: int|
        0 <= i && i + needle.len() <= hay.len() && #[trigger] hay.subrange(i, i + needle.len())
            == needle
}

/// The authorization URL names the configured client id, and a callback
/// URL rooted at the configured base URL.
pub proof fn lemma_start_login_url_parts(cfg: AuthConfigV)
    ensures
        contains_seq(start_login_url_spec(cfg), cfg.client_id),
        contains_seq(start_login_url_spec(cfg), cfg.base_url + "/auth/login/callback"@),
{
    let u = start_login_url_spec(cfg);
    let i1: int = cfg.url.len() as int + "/login/oauth/authorize?client_id="@.len() as int;
    assert(u.subrange(i1, i1 + cfg.client_id.len()) =~= cfg.client_id);
    let n2: int = cfg.base_url.len() as int + "/auth/login/callback"@.len() as int;
    let i2: int = u.len() as int - n2;
    assert(u.subrange(i2, i2 + n2) =~= cfg.base_url + "/auth/login/callback"@);
}

/// One full run of the protocol: each remote outcome is fed to the
/// machine for as long as it still awaits one, exactly as the transport
/// drives it. `t`, `p`, `o` and `sv` are the outcomes of the token
/// exchange, the profile fetch, the membership fetch and the store
/// write.
pub open spec fn run_login(
    org: Seq<char>,
    t: Result<GithubAccessTokenV, FetchFailureV>,
    p: Result<GithubUserV, FetchFailureV>,
    o: Result<Seq<GithubOrgV>, FetchFailureV>,
    sv: Result<Seq<char>, ErrorV>,
) -> LoginStateV {
    let s1 = step_model(org, LoginStateV::AwaitingToken, LoginEventV::TokenResult(t));
    if !(s1 is AwaitingProfile) {
        s1
    } else {
        let s2 = step_model(org, s1, LoginEventV::ProfileResult(p));
        if !(s2 is AwaitingOrgs) {
            s2
        } else {
            let s3 = step_model(org, s2, LoginEventV::OrgsResult(o));
            if !(s3 is AwaitingSave) {
                s3
            } else {
                step_model(org, s3, LoginEventV::SaveResult(sv))
            }
        }
    }
}

/// A login run succeeds exactly when every step does: the exchange came
/// back without a provider error and with a non-empty access token, the
/// profile and membership fetches succeeded, the configured organization
/// is among the memberships, and the store accepted the record. The
/// session then carries the fetched profile and the minted token.
pub proof fn lemma_login_success_iff(
    org: Seq<char>,
    t: Result<GithubAccessTokenV, FetchFailureV>,
    p: Result<GithubUserV, FetchFailureV>,
    o: Result<Seq<GithubOrgV>, FetchFailureV>,
    sv: Result<Seq<char>, ErrorV>,
)
    ensures
        run_login(org, t, p, o, sv) is Complete <==> {
            &&& t matches Ok(tok) && token_accepted(tok)
            &&& p is Ok
            &&& o matches Ok(orgs) && contains_org(orgs, org)
            &&& sv is Ok
        },
        run_login(org, t, p, o, sv) matches LoginStateV::Complete { session } ==> (p matches Ok(
            prof,
        ) && sv matches Ok(token) && session == SessionV { user: user_of(prof), token }),
{
}

/// When the configured organization is absent from the fetched
/// memberships, the login fails with a permission-denied error naming
/// that organization — and the machine never reaches the state whose
/// action writes to the store, so no token is minted for the rejected
/// user.
pub proof fn lemma_org_gate(
    org: Seq<char>,
    t: Result<GithubAccessTokenV, FetchFailureV>,
    p: Result<GithubUserV, FetchFailureV>,
    orgs: Seq<GithubOrgV>,
    sv: Result<Seq<char>, ErrorV>,
)
    requires
        !contains_org(orgs, org),
        t matches Ok(tok) && token_accepted(tok),
        p is Ok,
    ensures
        run_login(org, t, p, Ok(orgs), sv) == (LoginStateV::Failed {
            error: ErrorV::PermissionDenied("not a member of "@ + org),
        }),
        !(step_model(
            org,
            step_model(
                org,
                step_model(org, LoginStateV::AwaitingToken, LoginEventV::TokenResult(t)),
                LoginEventV::ProfileResult(p),
            ),
            LoginEventV::OrgsResult(Ok(orgs)),
        ) is AwaitingSave),
{
}

/// The configuration of the provider-backed authenticator: the
/// mathematical value of a [`GithubAuthenticator`].
pub struct AuthConfigV {
    pub org: Seq<char>,
    pub client_id: Seq<char>,
    pub client_secret: Seq<char>,
    pub url: Seq<char>,
    pub api_url: Seq<char>,
    pub base_url: Seq<char>,
}

impl AuthConfigV {
    /// A configuration the constructor accepts: no empty credential and
    /// no empty organization.
    pub open spec fn wf(self) -> bool {
        self.client_id.len() > 0 && self.client_secret.len() > 0 && self.org.len() > 0
    }
}

/// The provider-backed authenticator: the validated configuration of the
/// login protocol. The remote calls themselves are the transport's; every
/// decision between them is taken by [`GithubAuthenticator::login_step`].
#[derive(Debug)]
pub struct GithubAuthenticator {
    org: String,
    client_id: String,
    client_secret: String,
    url: String,
    api_url: String,
    base_url: String,
}

impl View for GithubAuthenticator {
    type V = AuthConfigV;

    closed spec fn view(&self) -> AuthConfigV {
        AuthConfigV {
            org: self.org@,
            client_id: self.client_id@,
            client_secret: self.client_secret@,
            url: self.url@,
            api_url: self.api_url@,
            base_url: self.base_url@,
        }
    }
}

impl GithubAuthenticator {
    /// Validates the configuration: an empty client id, client secret or
    /// organization is rejected immediately with an initialization
    /// error. The provider endpoints are fixed.
    pub fn new(client_id: String, client_secret: String, org: String, base_url: String) -> (r:
        Result<Self, Error>)
        ensures
            client_id@.len() == 0 ==> (r matches Err(e) && e@ == ErrorV::InitializationError(
                "Client ID is empty"@,
            )),
            client_id@.len() > 0 && client_secret@.len() == 0 ==> (r matches Err(e) && e@
                == ErrorV::InitializationError("Client Secret is empty"@)),
            client_id@.len() > 0 && client_secret@.len() > 0 && org@.len() == 0 ==> (r matches Err(
                e,
            ) && e@ == ErrorV::InitializationError("Organization is empty"@)),
            client_id@.len() > 0 && client_secret@.len() > 0 && org@.len() > 0 ==> (r matches Ok(a)
                && a@ == (AuthConfigV {
                org: org@,
                client_id: client_id@,
                client_secret: client_secret@,
                url: "https://github.com"@,
                api_url: "https://api.github.com"@,
                base_url: base_url@,
            }) && a@.wf()),
    {
        if client_id.as_str().is_empty() {
            return Err(Error::InitializationError("Client ID is empty".to_owned()));
        }
        if client_secret.as_str().is_empty() {
            return Err(Error::InitializationError("Client Secret is empty".to_owned()));
        }
        if org.as_str().is_empty() {
            return Err(Error::InitializationError("Organization is empty".to_owned()));
        }
        Ok(
            GithubAuthenticator {
                org,
                client_id,
                client_secret,
                url: "https://github.com".to_owned(),
                api_url: "https://api.github.com".to_owned(),
                base_url: base_url,
            },
        )
    }

    /// The organization whose members may log in.
    pub open spec fn org_spec(&self) -> Seq<char> {
        self@.org
    }

    /// Deterministically builds the provider's authorization URL from the
    /// configured client id and a callback rooted at the configured base
    /// URL. No side effects and no failure path.
    pub fn start_login(&self) -> (r: Result<String, Error>)
        ensures
            r matches Ok(u) && u@ == start_login_url_spec(self@),
    {
        let mut u = self.url.clone();
        u.append("/login/oauth/authorize?client_id=");
        u.append(self.client_id.as_str());
        u.append("&scope=read:user,read:org&redirect_uri=");
        u.append(self.base_url.as_str());
        u.append("/auth/login/callback");
        Ok(u)
    }

    /// One transition of the login protocol, exactly [`step_model`] on
    /// the configured organization.
    pub fn login_step(&self, state: LoginState, event: LoginEvent) -> (r: LoginState)
        ensures
            r@ == step_model(self@.org, state@, event@),
    {
        match (state, event) {
            (LoginState::AwaitingToken, LoginEvent::TokenResult(res)) => match res {
                Err(FetchFailure::Transport(m)) => {
                    let mut msg = "getting access_token: ".to_owned();
                    msg.append(m.as_str());
                    LoginState::Failed { error: Error::ConnectionError(msg) }
                },
                Err(FetchFailure::Parse(m)) => {
                    let mut msg = "reading access_token: ".to_owned();
                    msg.append(m.as_str());
                    LoginState::Failed { error: Error::SerializationError(msg) }
                },
                Ok(t) => {
                    if !t.error.as_str().is_empty() {
                        let mut msg = t.error_description;
                        msg.append(" (");
                        msg.append(t.error.as_str());
                        msg.append(")");
                        LoginState::Failed { error: Error::PermissionDenied(msg) }
                    } else if t.access_token.as_str().is_empty() {
                        LoginState::Failed {
                            error: Error::PermissionDenied("access token is empty".to_owned()),
                        }
                    } else {
                        LoginState::AwaitingProfile { access_token: t.access_token }
                    }
                },
            },
            (LoginState::AwaitingProfile { access_token }, LoginEvent::ProfileResult(res)) => match res {
                Err(FetchFailure::Transport(m)) => {
                    let mut msg = "getting user: ".to_owned();
                    msg.append(m.as_str());
                    LoginState::Failed { error: Error::ConnectionError(msg) }
                },
                Err(FetchFailure::Parse(m)) => {
                    let mut msg = "reading user: ".to_owned();
                    msg.append(m.as_str());
                    LoginState::Failed { error: Error::SerializationError(msg) }
                },
                Ok(p) => LoginState::AwaitingOrgs { access_token, user: p.to_user() },
            },
            (LoginState::AwaitingOrgs { access_token: _, user }, LoginEvent::OrgsResult(res)) => match res {
                Err(FetchFailure::Transport(m)) => {
                    let mut msg = "getting org: ".to_owned();
                    msg.append(m.as_str());
                    LoginState::Failed { error: Error::ConnectionError(msg) }
                },
                Err(FetchFailure::Parse(m)) => {
                    let mut msg = "reading org: ".to_owned();
                    msg.append(m.as_str());
                    LoginState::Failed { error: Error::SerializationError(msg) }
                },
                Ok(orgs) => {
                    if contains_org_exec(&orgs, &self.org) {
                        LoginState::AwaitingSave { user }
                    } else {
                        let mut msg = "not a member of ".to_owned();
                        msg.append(self.org.as_str());
                        LoginState::Failed { error: Error::PermissionDenied(msg) }
                    }
                },
            },
            (LoginState::AwaitingSave { user }, LoginEvent::SaveResult(res)) => match res {
                Ok(token) => LoginState::Complete { session: Session { user, token } },
                Err(e) => LoginState::Failed { error: Error::ConnectionError(e.message()) },
            },
            (s, _) => s,
        }
    }
}

/// Does the configured organization's handle appear among the fetched
/// memberships? Case-sensitive exact comparison.
fn contains_org_exec(orgs: &Vec<GithubOrg>, org: &String) -> (r: bool)
    ensures
        r == contains_org(orgs@.map_values(|o: GithubOrg| o@), org@),
{
    let ghost m = orgs@.map_values(|o: GithubOrg| o@);
    let mut i: usize = 0;
    while i < orgs.len()
        invariant
            0 <= i <= orgs.len(),
            m == orgs@.map_values(|o: GithubOrg| o@),
            forall|j: int| 0 <= j < i ==> #[trigger] m[j].login != org@,
        decreases orgs.len() - i,
    {
        if orgs[i].login == *org {
            assert(m[i as int].login == org@);
            return true;
        }
        i = i + 1;
    }
    false
}

} // verus!
