use v_albums::handlers::index;
use v_albums::handlers::ContentType;

#[test]
fn head() {
    assert_eq!(index::head(), 200);
}

#[test]
fn feelsdankman() {
    let (status, body) = index::feelsdankman();
    assert_eq!(status, 418);
    assert_eq!(body, "FeelsDankMan".to_string());
}

#[test]
fn static_assets_keep_their_bodies() {
    let icon = index::favicon("<svg/>".to_string());
    assert_eq!(icon.content_type, ContentType::Svg);
    assert_eq!(icon.body, "<svg/>");
    let css = index::styles("body {}".to_string());
    assert_eq!(css.content_type, ContentType::Css);
    assert_eq!(css.body, "body {}");
    let png = index::background(vec![137, 80, 78, 71]);
    assert_eq!(png.content_type, ContentType::Png);
    assert_eq!(png.body, vec![137, 80, 78, 71]);
}
