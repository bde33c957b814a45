use v_albums::config::{Config, ImgurConfig};
use v_albums::handlers::album;
use v_albums::handlers::album::{
    AuthForm, EditAlbumForm, ImportAlbumForm, ImportRequest, NewAlbumForm,
};
use v_albums::handlers::{Failure, FormError};
use v_albums::store::Store;
use v_albums::validate::UrlError;

fn config() -> Config {
    Config {
        imgur: ImgurConfig { client_id: "SECRET-REDACTED".to_string() },
        allowed_domains: vec!["i.imgur.com".to_string()],
    }
}

fn new_form(title: &str, images: &str) -> Result<NewAlbumForm, FormError> {
    Ok(NewAlbumForm { title: title.to_string(), images: images.to_string() })
}

#[test]
fn new() {
    let mut store = Store::new();
    let created = album::new(
        &mut store,
        &config(),
        new_form("title", "https://i.imgur.com/VoyouQH.png"),
    )
    .expect("album is created");
    assert_eq!(created.location, format!("/a/{}", created.token));
    assert_eq!(store.album_total(), 1);
    assert_eq!(store.image_total(), 1);
}

#[test]
fn new_invalid_image_url() {
    let mut store = Store::new();
    let err = album::new(
        &mut store,
        &config(),
        new_form("title", "https://i.evil.com/VoyouQH.png"),
    )
    .unwrap_err();
    assert_eq!(err.status(), 400);
    assert!(matches!(err, Failure::InvalidUrl(UrlError::DomainNotAllowed, _)));
    assert_eq!(store.album_total(), 0);
}

#[test]
fn import() {
    let mut store = Store::new();
    let request = album::import_request(Ok(ImportAlbumForm {
        title: String::new(),
        link: "https://imgur.com/a/JrheYnV".to_string(),
    }))
    .expect("link names an album");
    assert_eq!(request.album_hash, "JrheYnV");
    assert_eq!(request.title, None);
    let links = vec![
        "https://i.imgur.com/one.png".to_string(),
        "https://i.imgur.com/two.png".to_string(),
    ];
    let created = album::import(&mut store, &config(), &request, Ok(links)).expect("imported");
    let page = album::get(&store, &created.token).unwrap();
    assert_eq!(page.title, None);
    assert_eq!(
        page.images,
        vec!["https://i.imgur.com/one.png".to_string(), "https://i.imgur.com/two.png".to_string()]
    );
}

#[test]
fn get_non_existent_token() {
    let store = Store::new();
    let err = album::get(&store, "this_token_does_not_exist").unwrap_err();
    assert_eq!(err.status(), 404);
    assert_eq!(err.message(), "Could not find album");
}

#[test]
fn head_non_existent_token() {
    let store = Store::new();
    let err = album::head(&store, "this_token_does_not_exist").unwrap_err();
    assert_eq!(err.status(), 404);
    assert!(matches!(err, Failure::NotFound));
}

#[test]
fn new_then_get_lists_urls_in_order() {
    let mut store = Store::new();
    let created = album::new(
        &mut store,
        &config(),
        new_form("vacation", "https://i.imgur.com/a.png,https://i.imgur.com/b.png"),
    )
    .unwrap();
    assert!(created.location.starts_with("/a/"));
    assert_eq!(created.token.len(), 8);
    assert_eq!(created.deletion_token.len(), 16);
    let page = album::get(&store, &created.token).unwrap();
    assert_eq!(page.title.as_deref(), Some("vacation"));
    assert_eq!(
        page.images,
        vec!["https://i.imgur.com/a.png".to_string(), "https://i.imgur.com/b.png".to_string()]
    );
    let missing = album::get(&store, "doesnotexist").unwrap_err();
    assert_eq!(missing.status(), 404);
    assert_eq!(missing.message(), "Could not find album");
}

#[test]
fn evil_host_creates_no_album() {
    let mut store = Store::new();
    album::new(&mut store, &config(), new_form("ok", "https://i.imgur.com/a.png")).unwrap();
    let err = album::new(
        &mut store,
        &config(),
        new_form("bad", "https://i.imgur.com/b.png,https://i.evil.com/c.png"),
    )
    .unwrap_err();
    assert_eq!(err.status(), 400);
    assert_eq!(err.message(), "Invalid form input: URL is not allowed: https://i.evil.com/c.png");
    assert_eq!(store.album_total(), 1);
    assert_eq!(store.image_total(), 1);
}

#[test]
fn empty_title_is_none() {
    let mut store = Store::new();
    let created =
        album::new(&mut store, &config(), new_form("", "https://i.imgur.com/a.png")).unwrap();
    assert_eq!(album::get(&store, &created.token).unwrap().title, None);
}

#[test]
fn form_error_is_reported() {
    let mut store = Store::new();
    let err = album::new(&mut store, &config(), Err(FormError::InvalidUtf8)).unwrap_err();
    assert_eq!(err.status(), 400);
    assert_eq!(err.message(), "Form input was invalid UTF-8.");
    let err = album::new(&mut store, &config(), Err(FormError::Malformed("images".to_string())))
        .unwrap_err();
    assert_eq!(err.message(), "Invalid form input: images");
}

#[test]
fn import_link_errors() {
    let form = |link: &str| Ok(ImportAlbumForm { title: "t".to_string(), link: link.to_string() });
    assert!(matches!(
        album::import_request(form("not a url")),
        Err(Failure::InvalidUrl(UrlError::Malformed, _))
    ));
    assert!(matches!(
        album::import_request(form("https://example.com/a/xyz")),
        Err(Failure::InvalidUrl(UrlError::DomainNotAllowed, _))
    ));
    match album::import_request(form("https://example.com/a/xyz")) {
        Err(Failure::InvalidUrl(_, url)) => assert_eq!(url, "https://example.com/a/xyz"),
        other => panic!("unexpected {:?}", other),
    }
    assert!(matches!(
        album::import_request(form("https://imgur.com/a")),
        Err(Failure::NoAlbumHash)
    ));
    let req = album::import_request(form("https://imgur.com/a/xyz")).unwrap();
    assert_eq!(req.title.as_deref(), Some("t"));
}

#[test]
fn import_fetch_failure() {
    let mut store = Store::new();
    let request = ImportRequest { title: None, album_hash: "xyz".to_string() };
    let err = album::import(&mut store, &config(), &request, Err("Imgur said: 404".to_string()))
        .unwrap_err();
    assert_eq!(err.status(), 400);
    assert_eq!(err.message(), "Could not get album images: Imgur said: 404");
    assert_eq!(store.album_total(), 0);
}

#[test]
fn create_reports_full_tables_and_first_refused_url() {
    let mut store = Store::new();
    let err = album::new(
        &mut store,
        &config(),
        new_form("t", "https://i.imgur.com/a.png,ftp://,https://i.evil.com/b.png"),
    )
    .unwrap_err();
    match err {
        Failure::InvalidUrl(UrlError::Malformed, url) => assert_eq!(url, "ftp://"),
        other => panic!("unexpected {:?}", other),
    }
    assert_eq!(store.album_total(), 0);
}

#[test]
fn edit_errors_in_order() {
    let mut store = Store::new();
    let created =
        album::new(&mut store, &config(), new_form("t", "https://i.imgur.com/a.png")).unwrap();
    let token = created.token.clone();
    let form = |deletion_token: &str, method: &str, url: &str| {
        Ok(EditAlbumForm {
            index: 0,
            url: url.to_string(),
            deletion_token: deletion_token.to_string(),
            method: method.to_string(),
        })
    };
    // wrong token: forbidden, whatever the method and URL
    let err = album::post_edit(&mut store, &config(), &token, form("x", "swap", "bad"), None)
        .unwrap_err();
    assert!(matches!(err, Failure::Forbidden));
    // right token, wrong method: the method is reported before the URL
    let err = album::post_edit(
        &mut store,
        &config(),
        &token,
        form(&created.deletion_token, "swap", "bad"),
        None,
    )
    .unwrap_err();
    assert!(matches!(err, Failure::InvalidMethod(ref m) if m == "swap"));
    // right token and method, refused URL
    let err = album::post_edit(
        &mut store,
        &config(),
        &token,
        form(&created.deletion_token, "insert", "https://i.evil.com/x.png"),
        None,
    )
    .unwrap_err();
    assert_eq!(err.message(), "Invalid form input: URL is not allowed: https://i.evil.com/x.png");
    assert_eq!(store.image_total(), 1);
}

#[test]
fn auth_flow_and_edit_insert() {
    let mut store = Store::new();
    let created = album::new(
        &mut store,
        &config(),
        new_form("t", "https://i.imgur.com/a.png,https://i.imgur.com/b.png"),
    )
    .unwrap();
    let token = created.token.clone();

    let ctx = album::get_auth(&store, &token).unwrap();
    assert_eq!(ctx.token, token);

    let wrong = album::post_auth(
        &store,
        &token,
        Ok(AuthForm { deletion_token: "AAAAAAAAAAAAAAAA".to_string() }),
    )
    .unwrap_err();
    assert_eq!(wrong.status(), 403);

    let grant = album::post_auth(
        &store,
        &token,
        Ok(AuthForm { deletion_token: format!("{} ", created.deletion_token) }),
    )
    .unwrap();
    assert_eq!(grant.cookie_name, token);
    assert_eq!(grant.cookie_value, created.deletion_token);
    assert_eq!(grant.redirect, format!("/a/{}/edit", token));

    let unauthorized = album::get_edit(&store, &token, None).unwrap_err();
    assert_eq!(unauthorized.status(), 401);
    let forbidden = album::get_edit(&store, &token, Some("AAAAAAAAAAAAAAAA")).unwrap_err();
    assert_eq!(forbidden.status(), 403);
    let page = album::get_edit(&store, &token, Some(&grant.cookie_value)).unwrap();
    assert_eq!(page.deletion_token, created.deletion_token);

    let edit = |deletion_token: &str, method: &str| {
        Ok(EditAlbumForm {
            index: 1,
            url: "https://i.imgur.com/c.png".to_string(),
            deletion_token: deletion_token.to_string(),
            method: method.to_string(),
        })
    };
    let err = album::post_edit(&mut store, &config(), &token, edit("", "delete"), Some(&grant.cookie_value))
        .unwrap_err();
    assert_eq!(err.message(), "Invalid method `delete`");
    let err = album::post_edit(&mut store, &config(), &token, edit("nope", "insert"), None).unwrap_err();
    assert_eq!(err.status(), 403);
    let page = album::post_edit(
        &mut store,
        &config(),
        &token,
        edit(&created.deletion_token, "insert"),
        None,
    )
    .unwrap();
    assert_eq!(
        page.images,
        vec![
            "https://i.imgur.com/a.png".to_string(),
            "https://i.imgur.com/c.png".to_string(),
            "https://i.imgur.com/b.png".to_string(),
        ]
    );
    let err = album::post_edit(&mut store, &config(), "unknown", edit("", "insert"), None).unwrap_err();
    assert_eq!(err.status(), 404);
}
