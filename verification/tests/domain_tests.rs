//! The error taxonomy and the article-domain rules.

use fintrellis::blog::{
    list_offset, pages_for, validate_article_update, validate_new_article, ArticleRequest,
    ArticlesListOptions, Status,
};
use fintrellis::errors::Error;
use fintrellis::web::Listing;

#[test]
fn error_messages_and_statuses() {
    let cases = vec![
        (
            Error::InitializationError("x".to_string()),
            "initialization error: x",
            500,
        ),
        (Error::ConnectionError("x".to_string()), "connection error: x", 500),
        (
            Error::SerializationError("x".to_string()),
            "serialization error: x",
            400,
        ),
        (Error::PermissionDenied("x".to_string()), "permission denied: x", 403),
        (Error::NotFound("session".to_string()), "session not found", 404),
        (Error::InvalidInput("x".to_string()), "invalid input: x", 400),
    ];
    for (e, msg, status) in cases {
        assert_eq!(e.message(), msg);
        assert_eq!(e.http_status(), status);
    }
}

#[test]
fn status_labels_round_trip() {
    for s in [Status::Published, Status::Draft, Status::Trash] {
        assert_eq!(Status::from_string(s.to_string()), s);
    }
    assert_eq!(Status::Published.to_string(), "published");
    assert_eq!(Status::Draft.to_string(), "draft");
    assert_eq!(Status::Trash.to_string(), "trash");
}

#[test]
fn list_options_from_query_values() {
    assert_eq!(ArticlesListOptions::from_str("all"), ArticlesListOptions::All);
    assert_eq!(
        ArticlesListOptions::from_str("published"),
        ArticlesListOptions::Filtered(Status::Published)
    );
    assert_eq!(
        ArticlesListOptions::from_str("draft"),
        ArticlesListOptions::Filtered(Status::Draft)
    );
    assert_eq!(
        ArticlesListOptions::from_str("trash"),
        ArticlesListOptions::Filtered(Status::Trash)
    );
    assert_eq!(ArticlesListOptions::from_str("nonsense"), ArticlesListOptions::All);
}

#[test]
fn article_validation_reports_the_first_empty_field() {
    let t = "title".to_string();
    let d = "description".to_string();
    let c = "content".to_string();
    let a = "author".to_string();
    let empty = String::new();

    assert!(validate_new_article(&t, &d, &c, &a).is_ok());
    assert_eq!(
        validate_new_article(&empty, &d, &c, &a).unwrap_err().message(),
        "invalid input: title cannot be empty"
    );
    assert_eq!(
        validate_new_article(&t, &empty, &c, &a).unwrap_err().message(),
        "invalid input: description cannot be empty"
    );
    assert_eq!(
        validate_new_article(&t, &d, &empty, &a).unwrap_err().message(),
        "invalid input: content cannot be empty"
    );
    assert_eq!(
        validate_new_article(&t, &d, &c, &empty).unwrap_err().message(),
        "invalid input: author cannot be empty"
    );

    assert!(validate_article_update(&t, &d, &c).is_ok());
    assert_eq!(
        validate_article_update(&empty, &d, &c).unwrap_err().message(),
        "invalid input: title cannot be empty"
    );
}

#[test]
fn paging_arithmetic() {
    assert_eq!(pages_for(0, 10), 0);
    assert_eq!(pages_for(1, 10), 1);
    assert_eq!(pages_for(10, 10), 1);
    assert_eq!(pages_for(11, 10), 2);
    assert_eq!(pages_for(2, 10), 1);

    assert_eq!(list_offset(1, 10), 0);
    assert_eq!(list_offset(0, 10), 0);
    assert_eq!(list_offset(-1, 10), 0);
    assert_eq!(list_offset(3, 10), 20);
}

#[test]
fn listing_and_request_types_carry_plain_values() {
    let req = ArticleRequest {
        title: "t".to_string(),
        description: "d".to_string(),
        content: "c".to_string(),
    };
    assert_eq!(req.title, "t");

    let listing = Listing { items: vec![req], pages: 1 };
    assert_eq!(listing.items.len(), 1);
    assert_eq!(listing.pages, 1);
}
