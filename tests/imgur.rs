use v_albums::imgur::{album_links, check_http_status, AlbumImages, FetchError, Image};

#[test]
fn http_status_must_be_success() {
    assert!(check_http_status(200).is_ok());
    assert!(check_http_status(204).is_ok());
    assert_eq!(check_http_status(404), Err(FetchError::HttpStatus(404)));
    assert_eq!(check_http_status(301), Err(FetchError::HttpStatus(301)));
}

#[test]
fn links_in_listed_order() {
    let body = AlbumImages {
        data: vec![
            Image { link: "https://i.imgur.com/1.png".to_string() },
            Image { link: "https://i.imgur.com/2.png".to_string() },
        ],
        status: 200,
    };
    assert_eq!(
        album_links(body).unwrap(),
        vec!["https://i.imgur.com/1.png".to_string(), "https://i.imgur.com/2.png".to_string()]
    );
    let refused = AlbumImages { data: vec![], status: 403 };
    assert_eq!(album_links(refused).unwrap_err(), FetchError::ApiStatus(403));
}
