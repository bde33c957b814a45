use v_albums::deletion_token::{DeletionToken, DeletionTokenError};
use v_albums::handlers::album::{check_deletion_token, check_deletion_token_cookie, deletion_token_matches};
use v_albums::handlers::Failure;
use v_albums::models::Album;
use v_albums::text::split_on;
use v_albums::validate::{validate_url, UrlError};

fn allowed() -> Vec<String> {
    vec!["i.imgur.com".to_string()]
}

#[test]
fn accepted_url_is_normalized() {
    let url = validate_url(&allowed(), "HTTPS://I.IMGUR.COM/a.png").unwrap();
    assert_eq!(url.serialization, "https://i.imgur.com/a.png");
    assert_eq!(url.scheme, "https");
    let url = validate_url(&allowed(), "http://i.imgur.com").unwrap();
    assert_eq!(url.serialization, "http://i.imgur.com/");
    assert!(validate_url(&allowed(), "ftp://i.imgur.com/a.png").is_ok());
}

#[test]
fn refused_urls() {
    assert_eq!(validate_url(&allowed(), "no url").unwrap_err(), UrlError::Malformed);
    assert_eq!(validate_url(&allowed(), "https://127.0.0.1/a.png").unwrap_err(), UrlError::NoDomain);
    assert_eq!(validate_url(&allowed(), "mailto:me@i.imgur.com").unwrap_err(), UrlError::NoDomain);
    assert_eq!(
        validate_url(&allowed(), "https://i.evil.com/a.png").unwrap_err(),
        UrlError::DomainNotAllowed
    );
    assert_eq!(
        validate_url(&allowed(), "ws://i.imgur.com/a.png").unwrap_err(),
        UrlError::InvalidScheme
    );
    assert_eq!(
        validate_url(&allowed(), "gopher://I.imgur.com/a.png").unwrap_err(),
        UrlError::InvalidScheme
    );
}

#[test]
fn failure_statuses() {
    assert_eq!(Failure::NotFound.status(), 404);
    assert_eq!(Failure::Unauthorized.status(), 401);
    assert_eq!(Failure::Forbidden.status(), 403);
    assert_eq!(Failure::Storage(v_albums::store::StoreError::Full).status(), 500);
    assert_eq!(Failure::TooManyImages.status(), 400);
    assert_eq!(Failure::Unauthorized.message(), "Missing deletion token");
    assert_eq!(Failure::Forbidden.message(), "Wrong deletion token");
    assert_eq!(
        Failure::InvalidUrl(UrlError::NoDomain, "https://1.2.3.4/".to_string()).message(),
        "Invalid form input: URL has no domain part: https://1.2.3.4/"
    );
}

fn album() -> Album {
    Album {
        id: 1,
        token: "abcdefgh".to_string(),
        deletion_token: "ABCDEFGHIJKLMNOP".to_string(),
        title: None,
    }
}

#[test]
fn deletion_token_matching() {
    let a = album();
    assert!(deletion_token_matches(&a, "ABCDEFGHIJKLMNOP"));
    assert!(deletion_token_matches(&a, "ABCDEFGHIJKLMNOP \t\n"));
    assert!(deletion_token_matches(&a, "  ABCDEFGHIJKLMNOP"));
    assert!(!deletion_token_matches(&a, "ABCDEFGHIJKLMNOQ"));
    assert!(!deletion_token_matches(&a, "abcdefgh"));
    assert!(check_deletion_token(&a, "ABCDEFGHIJKLMNOP").is_ok());
    assert!(matches!(check_deletion_token(&a, "ABCDEFGHIJKLMNOQ"), Err(Failure::Forbidden)));
    assert!(matches!(check_deletion_token_cookie(&a, None), Err(Failure::Unauthorized)));
    assert!(check_deletion_token_cookie(&a, Some("ABCDEFGHIJKLMNOP")).is_ok());
}

#[test]
fn deletion_token_extraction() {
    assert_eq!(DeletionToken::from_query(None).unwrap_err(), DeletionTokenError::Missing);
    assert_eq!(
        DeletionToken::from_query(Some("short".to_string())).unwrap_err(),
        DeletionTokenError::Invalid
    );
    assert_eq!(
        DeletionToken::from_query(Some("ÄBCDEFGHIJKLMNO".to_string())).unwrap_err(),
        DeletionTokenError::Invalid
    );
    let t = DeletionToken::from_query(Some("ABCDEFGHIJKLMNOP".to_string())).unwrap();
    assert_eq!(t.as_str(), "ABCDEFGHIJKLMNOP");
    assert_eq!(DeletionToken::from_headers(&vec![]).unwrap_err(), DeletionTokenError::Missing);
    let two = vec!["ABCDEFGHIJKLMNOP".to_string(), "ABCDEFGHIJKLMNOP".to_string()];
    assert_eq!(DeletionToken::from_headers(&two).unwrap_err(), DeletionTokenError::Ambiguous);
    assert_eq!(
        DeletionToken::from_headers(&vec!["x".to_string()]).unwrap_err(),
        DeletionTokenError::Invalid
    );
    assert!(DeletionToken::from_headers(&vec!["ABCDEFGHIJKLMNOP".to_string()]).is_ok());
}

#[test]
fn split_on_commas() {
    assert_eq!(split_on("a,b,,c", ','), vec!["a", "b", "", "c"]);
    assert_eq!(split_on("", ','), vec![""]);
    assert_eq!(split_on("ä,ö", ','), vec!["ä", "ö"]);
}
