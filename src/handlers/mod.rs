use crate::store::StoreError;
use crate::validate::UrlError;
use vstd::prelude::*;

pub mod album;
pub mod index;

verus! {

/// Why a submitted form could not be read.
#[derive(Debug, Clone)]
pub enum FormError {
    /// The body is not valid UTF-8.
    InvalidUtf8,
    /// A field is missing or does not parse; the text names it.
    Malformed(String),
}

/// Why a request failed; each kind maps to one HTTP status.
#[derive(Debug, Clone)]
pub enum Failure {
    /// The form could not be read.
    Form(FormError),
    /// A submitted URL was refused, for the reason given; the text is the URL.
    InvalidUrl(UrlError, String),
    /// More images than an index can number.
    TooManyImages,
    /// The edit form names an operation other than `insert`.
    InvalidMethod(String),
    /// No album has the public token.
    NotFound,
    /// No credential was offered.
    Unauthorized,
    /// The credential offered is wrong.
    Forbidden,
    /// The store refused a write.
    Storage(StoreError),
    /// The import link names no album.
    NoAlbumHash,
    /// The album to import could not be read; the text says why.
    Import(String),
}

/// The HTTP status of each kind of failure.
pub open spec fn status_of(f: Failure) -> u16 {
    match f {
        Failure::NotFound => 404,
        Failure::Unauthorized => 401,
        Failure::Forbidden => 403,
        Failure::Storage(_) => 500,
        _ => 400,
    }
}

/// The text that the reply carries for each kind of failure.
pub open spec fn message_of(f: Failure) -> Seq<char> {
    match f {
        Failure::Form(FormError::InvalidUtf8) => "Form input was invalid UTF-8."@,
        Failure::Form(FormError::Malformed(field)) => "Invalid form input: "@ + field@,
        Failure::InvalidUrl(e, url) => "Invalid form input: "@ + url_error_text(e) + ": "@ + url@,
        Failure::TooManyImages => "Album has too many images"@,
        Failure::InvalidMethod(m) => "Invalid method `"@ + m@ + "`"@,
        Failure::NotFound => "Could not find album"@,
        Failure::Unauthorized => "Missing deletion token"@,
        Failure::Forbidden => "Wrong deletion token"@,
        Failure::Storage(_) => "Could not store the album"@,
        Failure::NoAlbumHash => "Could not parse album link"@,
        Failure::Import(why) => "Could not get album images: "@ + why@,
    }
}

/// The text that names each refusal of an image URL.
pub open spec fn url_error_text(e: UrlError) -> Seq<char> {
    match e {
        UrlError::Malformed => "URL does not parse"@,
        UrlError::NoDomain => "URL has no domain part"@,
        UrlError::DomainNotAllowed => "URL is not allowed"@,
        UrlError::NotABase => "Not a base URL"@,
        UrlError::InvalidScheme => "Invalid scheme"@,
    }
}

fn url_error_string(e: UrlError) -> (r: String)
    ensures
        r@ == url_error_text(e),
{
    match e {
        UrlError::Malformed => "URL does not parse".to_owned(),
        UrlError::NoDomain => "URL has no domain part".to_owned(),
        UrlError::DomainNotAllowed => "URL is not allowed".to_owned(),
        UrlError::NotABase => "Not a base URL".to_owned(),
        UrlError::InvalidScheme => "Invalid scheme".to_owned(),
    }
}

impl Failure {
    /// The HTTP status code of this failure.
    pub fn status(&self) -> (r: u16)
        ensures
            r == status_of(*self),
    {
        match self {
            Failure::NotFound => 404,
            Failure::Unauthorized => 401,
            Failure::Forbidden => 403,
            Failure::Storage(_) => 500,
            _ => 400,
        }
    }

    /// The human-readable text of this failure.
    pub fn message(&self) -> (r: String)
        ensures
            r@ == message_of(*self),
    {
        match self {
            Failure::Form(FormError::InvalidUtf8) => "Form input was invalid UTF-8.".to_owned(),
            Failure::Form(FormError::Malformed(field)) => "Invalid form input: ".to_owned().concat(
                field.as_str(),
            ),
            Failure::InvalidUrl(e, url) => {
                let text = url_error_string(*e);
                "Invalid form input: ".to_owned().concat(text.as_str()).concat(": ").concat(
                    url.as_str(),
                )
            },
            Failure::TooManyImages => "Album has too many images".to_owned(),
            Failure::InvalidMethod(m) => "Invalid method `".to_owned().concat(m.as_str()).concat(
                "`",
            ),
            Failure::NotFound => "Could not find album".to_owned(),
            Failure::Unauthorized => "Missing deletion token".to_owned(),
            Failure::Forbidden => "Wrong deletion token".to_owned(),
            Failure::Storage(_) => "Could not store the album".to_owned(),
            Failure::NoAlbumHash => "Could not parse album link".to_owned(),
            Failure::Import(why) => "Could not get album images: ".to_owned().concat(why.as_str()),
        }
    }
}

/// The media types the service answers with.
#[derive(Debug, Clone, Copy, PartialEq, Eq, Structural)]
pub enum ContentType {
    Html,
    Plain,
    Svg,
    Css,
    Png,
}

/// A body together with its media type.
#[derive(Debug, Clone)]
pub struct Content<T> {
    pub content_type: ContentType,
    pub body: T,
}

/// Turns a form that could not be read into the failure the reply reports.
pub fn parse_form<F>(sink: Result<F, FormError>) -> (r: Result<F, Failure>)
    ensures
        match sink {
            Ok(f) => r == Ok::<F, Failure>(f),
            Err(e) => r == Err::<F, Failure>(Failure::Form(e)),
        },
{
    match sink {
        Ok(f) => Ok(f),
        Err(e) => Err(Failure::Form(e)),
    }
}

} // verus!
