//! The session store and the session manager, driven through the
//! in-memory store.

use std::collections::HashSet;

use fintrellis::auth::memory::InMemoryRepo;
use fintrellis::auth::store::{decode_user, encode_user, prepare_record, read_stored};
use fintrellis::auth::{DefaultSessionManager, Repo, User};
use fintrellis::errors::Error;

fn sample_user() -> User {
    User {
        id: 123456,
        name: "John Doe".to_string(),
        avatar_url: "https://foo.bar".to_string(),
        login: "john_doe".to_string(),
    }
}

#[test]
fn test_session_success() {
    let mut repo = InMemoryRepo::new(60);
    let token = repo.save(sample_user()).unwrap();
    let session_manager = DefaultSessionManager::new(repo);

    let result = session_manager.session(token);
    assert!(result.is_ok());
    let user = result.unwrap();

    assert_eq!(user.id, 123456);
    assert_eq!(user.name, "John Doe");
    assert_eq!(user.avatar_url, "https://foo.bar");
    assert_eq!(user.login, "john_doe");
}

#[test]
fn test_session_not_found() {
    let repo = InMemoryRepo::new(60);
    let session_manager = DefaultSessionManager::new(repo);

    let token = "invalid_token".to_string();
    let result = session_manager.session(token);
    assert!(result.is_err());
    assert_eq!(result.unwrap_err().message(), "session not found");
}

#[test]
fn test_logout_success() {
    let mut repo = InMemoryRepo::new(60);
    let token = repo.save(sample_user()).unwrap();
    let mut session_manager = DefaultSessionManager::new(repo);

    let result = session_manager.logout(token);
    assert!(result.is_ok());
}

#[test]
fn test_logout_failure() {
    let mut repo = InMemoryRepo::new(60);
    repo.set_offline(Some("Failed to delete".to_string()));
    let mut session_manager = DefaultSessionManager::new(repo);

    let token = "invalid_token".to_string();
    let result = session_manager.logout(token);
    assert!(result.is_err());
    assert_eq!(
        result.unwrap_err().message(),
        "connection error: Failed to delete"
    );
}

#[test]
fn load_user_without_cookie_is_denied() {
    let mut repo = InMemoryRepo::new(60);
    let token = repo.save(sample_user()).unwrap();
    let session_manager = DefaultSessionManager::new(repo);

    let err = session_manager.load_user(None).unwrap_err();
    assert_eq!(err.message(), "permission denied: no session found");
    assert_eq!(err.http_status(), 403);

    let user = session_manager.load_user(Some(token)).unwrap();
    assert_eq!(user.id, 123456);
}

#[test]
fn test_save_and_get_user() {
    let mut repo = InMemoryRepo::new(60);

    let user = User {
        id: 1,
        name: "Test User".to_string(),
        avatar_url: "https://foo.bar/avatar".to_string(),
        login: "test_user".to_string(),
    };

    let token = repo.save(user.clone()).unwrap();
    let fetched_user = repo.get(token).unwrap();

    assert_eq!(user.id, fetched_user.id);
    assert_eq!(user.name, fetched_user.name);
}

#[test]
fn test_delete_user() {
    let mut repo = InMemoryRepo::new(60);

    let user = User {
        id: 2,
        name: "Test User 2".to_string(),
        avatar_url: "https://foo.bar/avatar2".to_string(),
        login: "test_user_2".to_string(),
    };

    let token = repo.save(user.clone()).unwrap();
    repo.delete(token.clone()).unwrap();

    let result = repo.get(token);
    assert!(result.is_err());
}

#[test]
fn save_get_round_trip_all_fields() {
    let mut repo = InMemoryRepo::new(60);
    let user = User {
        id: u64::MAX,
        name: "Name | with pipes || inside".to_string(),
        avatar_url: "https://example/|.png".to_string(),
        login: "we|rd".to_string(),
    };

    let token = repo.save(user.clone()).unwrap();
    let fetched = repo.get(token).unwrap();

    assert_eq!(fetched.id, user.id);
    assert_eq!(fetched.name, user.name);
    assert_eq!(fetched.avatar_url, user.avatar_url);
    assert_eq!(fetched.login, user.login);
}

#[test]
fn get_after_delete_is_not_found() {
    let mut repo = InMemoryRepo::new(60);
    let token = repo.save(sample_user()).unwrap();
    repo.delete(token.clone()).unwrap();

    let err = repo.get(token).unwrap_err();
    assert_eq!(err.message(), "session not found");
    assert_eq!(err.http_status(), 404);
}

#[test]
fn get_after_ttl_expiry_is_not_found() {
    let mut repo = InMemoryRepo::new(60);
    let token = repo.save(sample_user()).unwrap();

    repo.advance(59);
    assert!(repo.get(token.clone()).is_ok());

    repo.advance(1);
    let err = repo.get(token).unwrap_err();
    assert_eq!(err.message(), "session not found");
}

#[test]
fn expiry_error_is_distinct_from_connection_error() {
    let mut repo = InMemoryRepo::new(1);
    let token = repo.save(sample_user()).unwrap();
    repo.advance(2);

    let err = repo.get(token.clone()).unwrap_err();
    assert!(matches!(err, Error::NotFound(_)));

    repo.set_offline(Some("backing store unreachable".to_string()));
    let err = repo.get(token).unwrap_err();
    assert!(matches!(err, Error::ConnectionError(_)));
}

#[test]
fn thousands_of_tokens_are_distinct() {
    let mut repo = InMemoryRepo::new(60);
    let mut seen = HashSet::new();
    for i in 0..3000u64 {
        let user = User {
            id: i,
            name: "n".to_string(),
            avatar_url: "a".to_string(),
            login: "l".to_string(),
        };
        let token = repo.save(user).unwrap();
        assert!(seen.insert(token));
    }
    assert_eq!(seen.len(), 3000);
}

#[test]
fn uuid_tokens_are_distinct_and_hyphenated() {
    let user = sample_user();
    let mut seen = HashSet::new();
    for _ in 0..2000 {
        let (token, _) = prepare_record(&user);
        assert_eq!(token.chars().count(), 36);
        assert!(seen.insert(token));
    }
    assert_eq!(seen.len(), 2000);
}

#[test]
fn malformed_stored_record_is_a_serialization_error() {
    let mut repo = InMemoryRepo::new(60);
    let token = repo.put_raw("only|three|fields".to_string());

    let err = repo.get(token).unwrap_err();
    assert!(matches!(err, Error::SerializationError(_)));
    assert_eq!(err.http_status(), 400);
}

#[test]
fn save_fails_while_offline_and_stores_nothing() {
    let mut repo = InMemoryRepo::new(60);
    repo.set_offline(Some("pool exhausted".to_string()));
    let err = repo.save(sample_user()).unwrap_err();
    assert_eq!(err.message(), "connection error: pool exhausted");

    repo.set_offline(None);
    let err = repo.get("token-0".to_string()).unwrap_err();
    assert!(matches!(err, Error::NotFound(_)));
}

#[test]
fn encode_format_is_length_prefixed() {
    let user = User {
        id: 1,
        name: "de".to_string(),
        avatar_url: "c".to_string(),
        login: "ab".to_string(),
    };
    assert_eq!(encode_user(&user), "1|2|1|2|abcde");

    let decoded = decode_user("1|2|1|2|abcde").unwrap();
    assert_eq!(decoded.id, 1);
    assert_eq!(decoded.login, "ab");
    assert_eq!(decoded.avatar_url, "c");
    assert_eq!(decoded.name, "de");
}

#[test]
fn decode_rejects_malformed_records() {
    assert!(matches!(
        decode_user("no pipes at all"),
        Err(Error::SerializationError(_))
    ));
    assert!(matches!(
        decode_user("1|2|3"),
        Err(Error::SerializationError(_))
    ));
    assert!(matches!(
        decode_user("x|2|1|2|abcde"),
        Err(Error::SerializationError(_))
    ));
    assert!(matches!(
        decode_user("1|9|1|2|abcde"),
        Err(Error::SerializationError(_))
    ));
    assert!(matches!(
        decode_user("01|2|1|2|abcde"),
        Err(Error::SerializationError(_))
    ));
    assert!(matches!(
        decode_user("99999999999999999999|2|1|2|abcde"),
        Err(Error::SerializationError(_))
    ));
}

#[test]
fn decode_handles_the_largest_id() {
    let decoded = decode_user("18446744073709551615|1|1|1|abc").unwrap();
    assert_eq!(decoded.id, u64::MAX);

    assert!(matches!(
        decode_user("18446744073709551616|1|1|1|abc"),
        Err(Error::SerializationError(_))
    ));
}

#[test]
fn read_stored_maps_absent_keys_to_not_found() {
    let err = read_stored(None).unwrap_err();
    assert_eq!(err.message(), "session not found");

    let user = read_stored(Some("7|1|1|1|abc".to_string())).unwrap();
    assert_eq!(user.id, 7);
    assert_eq!(user.login, "a");
    assert_eq!(user.avatar_url, "b");
    assert_eq!(user.name, "c");
}
