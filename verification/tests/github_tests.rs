//! The OAuth login protocol, driven event by event through the state
//! machine.

use fintrellis::auth::github::{
    FetchFailure, GithubAccessToken, GithubAuthenticator, GithubOrg, GithubUser, LoginEvent,
    LoginState,
};
use fintrellis::errors::Error;

fn authenticator() -> GithubAuthenticator {
    GithubAuthenticator::new(
        "test_client_id".to_string(),
        "test_client_secret".to_string(),
        "test_org".to_string(),
        "website.local".to_string(),
    )
    .unwrap()
}

fn token_ok(access_token: &str) -> LoginEvent {
    LoginEvent::TokenResult(Ok(GithubAccessToken {
        access_token: access_token.to_string(),
        error: String::new(),
        error_description: String::new(),
    }))
}

fn profile_ok() -> LoginEvent {
    LoginEvent::ProfileResult(Ok(GithubUser {
        id: 123456,
        login: "test_user".to_string(),
        avatar_url: "https://foo.bar".to_string(),
        name: "John Doe".to_string(),
    }))
}

fn orgs_ok(names: &[&str]) -> LoginEvent {
    LoginEvent::OrgsResult(Ok(names
        .iter()
        .map(|n| GithubOrg {
            login: n.to_string(),
        })
        .collect()))
}

/// Runs the machine from the start over the given events.
fn drive(auth: &GithubAuthenticator, events: Vec<LoginEvent>) -> LoginState {
    let mut state = LoginState::AwaitingToken;
    for event in events {
        state = auth.login_step(state, event);
    }
    state
}

#[test]
fn test_start_login() {
    let authenticator = authenticator();

    let result = authenticator.start_login();
    assert!(result.is_ok());
    assert_eq!(
        result.unwrap(),
        "https://github.com/login/oauth/authorize?client_id=test_client_id&scope=read:user,read:org&redirect_uri=website.local/auth/login/callback"
    );
}

#[test]
fn test_login_success() {
    let authenticator = authenticator();

    let final_state = drive(
        &authenticator,
        vec![
            token_ok("test_access_token"),
            profile_ok(),
            orgs_ok(&["test_org"]),
            LoginEvent::SaveResult(Ok("test_token".to_string())),
        ],
    );

    match final_state {
        LoginState::Complete { session } => {
            assert_eq!(session.token, "test_token");
            assert_eq!(session.user.id, 123456);
            assert_eq!(session.user.login, "test_user");
            assert_eq!(session.user.avatar_url, "https://foo.bar");
            assert_eq!(session.user.name, "John Doe");
        }
        _ => panic!("login did not complete"),
    }
}

#[test]
fn test_login_invalid_code() {
    let authenticator = authenticator();

    let final_state = drive(
        &authenticator,
        vec![LoginEvent::TokenResult(Ok(GithubAccessToken {
            access_token: String::new(),
            error: "bad_verification_code".to_string(),
            error_description: String::new(),
        }))],
    );

    match final_state {
        LoginState::Failed { error } => {
            assert!(matches!(error, Error::PermissionDenied(_)));
            assert_eq!(error.message(), "permission denied:  (bad_verification_code)");
        }
        _ => panic!("login did not fail"),
    }
}

#[test]
fn test_login_not_member_of_org() {
    let authenticator = authenticator();

    let final_state = drive(
        &authenticator,
        vec![token_ok("test_access_token"), profile_ok(), orgs_ok(&["test_org2"])],
    );

    match final_state {
        LoginState::Failed { error } => {
            assert_eq!(error.message(), "permission denied: not a member of test_org");
        }
        _ => panic!("login did not fail"),
    }
}

#[test]
fn login_scenario_octocat_member() {
    let auth = GithubAuthenticator::new(
        "id".to_string(),
        "secret".to_string(),
        "myorg".to_string(),
        "https://blog.example".to_string(),
    )
    .unwrap();

    let final_state = drive(
        &auth,
        vec![
            token_ok("tok_abc"),
            LoginEvent::ProfileResult(Ok(GithubUser {
                id: 123456,
                login: "octocat".to_string(),
                name: "The Octocat".to_string(),
                avatar_url: "https://example/a.png".to_string(),
            })),
            orgs_ok(&["myorg"]),
            LoginEvent::SaveResult(Ok("generated-token".to_string())),
        ],
    );

    match final_state {
        LoginState::Complete { session } => {
            assert_eq!(session.user.id, 123456);
            assert_eq!(session.user.login, "octocat");
            assert_eq!(session.user.name, "The Octocat");
            assert_eq!(session.user.avatar_url, "https://example/a.png");
            assert_eq!(session.token, "generated-token");
        }
        _ => panic!("login did not complete"),
    }
}

#[test]
fn login_scenario_octocat_wrong_org() {
    let auth = GithubAuthenticator::new(
        "id".to_string(),
        "secret".to_string(),
        "myorg".to_string(),
        "https://blog.example".to_string(),
    )
    .unwrap();

    let final_state = drive(
        &auth,
        vec![
            token_ok("tok_abc"),
            LoginEvent::ProfileResult(Ok(GithubUser {
                id: 123456,
                login: "octocat".to_string(),
                name: "The Octocat".to_string(),
                avatar_url: "https://example/a.png".to_string(),
            })),
            orgs_ok(&["other"]),
        ],
    );

    match final_state {
        LoginState::Failed { error } => {
            assert_eq!(error.message(), "permission denied: not a member of myorg");
        }
        _ => panic!("login did not fail"),
    }
}

#[test]
fn start_login_url_names_client_id_and_callback() {
    let auth = GithubAuthenticator::new(
        "the-client".to_string(),
        "secret".to_string(),
        "myorg".to_string(),
        "https://base.example".to_string(),
    )
    .unwrap();

    let url = auth.start_login().unwrap();
    assert!(url.contains("the-client"));
    assert!(url.contains("https://base.example/auth/login/callback"));
}

#[test]
fn empty_access_token_is_permission_denied() {
    let auth = authenticator();
    let final_state = drive(&auth, vec![token_ok("")]);
    match final_state {
        LoginState::Failed { error } => {
            assert_eq!(error.message(), "permission denied: access token is empty");
        }
        _ => panic!("login did not fail"),
    }
}

#[test]
fn transport_and_parse_failures_map_per_step() {
    let auth = authenticator();

    let s = drive(
        &auth,
        vec![LoginEvent::TokenResult(Err(FetchFailure::Transport("timed out".to_string())))],
    );
    match s {
        LoginState::Failed { error } => {
            assert_eq!(error.message(), "connection error: getting access_token: timed out");
            assert_eq!(error.http_status(), 500);
        }
        _ => panic!("expected failure"),
    }

    let s = drive(
        &auth,
        vec![
            token_ok("t"),
            LoginEvent::ProfileResult(Err(FetchFailure::Parse("bad json".to_string()))),
        ],
    );
    match s {
        LoginState::Failed { error } => {
            assert_eq!(error.message(), "serialization error: reading user: bad json");
            assert_eq!(error.http_status(), 400);
        }
        _ => panic!("expected failure"),
    }

    let s = drive(
        &auth,
        vec![
            token_ok("t"),
            profile_ok(),
            LoginEvent::OrgsResult(Err(FetchFailure::Transport("reset".to_string()))),
        ],
    );
    match s {
        LoginState::Failed { error } => {
            assert_eq!(error.message(), "connection error: getting org: reset");
        }
        _ => panic!("expected failure"),
    }
}

#[test]
fn store_failure_during_save_fails_the_login() {
    let auth = authenticator();
    let s = drive(
        &auth,
        vec![
            token_ok("t"),
            profile_ok(),
            orgs_ok(&["test_org"]),
            LoginEvent::SaveResult(Err(Error::ConnectionError("pool exhausted".to_string()))),
        ],
    );
    match s {
        LoginState::Failed { error } => {
            assert_eq!(
                error.message(),
                "connection error: connection error: pool exhausted"
            );
        }
        _ => panic!("expected failure"),
    }
}

#[test]
fn mismatched_event_leaves_the_state_alone() {
    let auth = authenticator();
    let s = auth.login_step(
        LoginState::AwaitingToken,
        LoginEvent::SaveResult(Ok("t".to_string())),
    );
    assert!(matches!(s, LoginState::AwaitingToken));
}

#[test]
fn constructor_rejects_empty_configuration() {
    let e = GithubAuthenticator::new(
        String::new(),
        "s".to_string(),
        "o".to_string(),
        "b".to_string(),
    )
    .unwrap_err();
    assert_eq!(e.message(), "initialization error: Client ID is empty");
    assert_eq!(e.http_status(), 500);

    let e = GithubAuthenticator::new(
        "c".to_string(),
        String::new(),
        "o".to_string(),
        "b".to_string(),
    )
    .unwrap_err();
    assert_eq!(e.message(), "initialization error: Client Secret is empty");

    let e = GithubAuthenticator::new(
        "c".to_string(),
        "s".to_string(),
        String::new(),
        "b".to_string(),
    )
    .unwrap_err();
    assert_eq!(e.message(), "initialization error: Organization is empty");
}
