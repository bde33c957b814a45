use crate::handlers::{Content, ContentType};
use vstd::prelude::*;

verus! {

/// Status of the landing page's `HEAD` reply, which has no body.
pub fn head() -> (r: u16)
    ensures
        r == 200,
{
    200
}

/// The teapot page: status 418 and a fixed text.
pub fn feelsdankman() -> (r: (u16, String))
    ensures
        r.0 == 418,
        r.1@ == "FeelsDankMan"@,
{
    (418, "FeelsDankMan".to_owned())
}

/// The site icon, served as SVG.
pub fn favicon(svg: String) -> (r: Content<String>)
    ensures
        r.content_type == ContentType::Svg,
        r.body == svg,
{
    Content { content_type: ContentType::Svg, body: svg }
}

/// The style sheet, served as CSS.
pub fn styles(css: String) -> (r: Content<String>)
    ensures
        r.content_type == ContentType::Css,
        r.body == css,
{
    Content { content_type: ContentType::Css, body: css }
}

/// The background picture, served as PNG.
pub fn background(png: Vec<u8>) -> (r: Content<Vec<u8>>)
    ensures
        r.content_type == ContentType::Png,
        r.body == png,
{
    Content { content_type: ContentType::Png, body: png }
}

} // verus!
