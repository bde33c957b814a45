use vstd::prelude::*;

verus! {

/// What the logic reads of a parsed absolute URL.
#[derive(Debug, Clone)]
pub struct ParsedUrl {
    /// The whole URL, normalized by the parser.
    pub serialization: String,
    /// The scheme, lower case.
    pub scheme: String,
    /// The host where it is a domain (not an address).
    pub domain: Option<String>,
    /// Whether the URL has no hierarchical path (`mailto:`, `data:`).
    pub cannot_be_a_base: bool,
    /// The path cut at every `/`, where the path starts with one.
    pub path_segments: Option<Vec<String>>,
}

/// The view of a parsed URL.
pub ghost struct UrlView {
    pub serialization: Seq<char>,
    pub scheme: Seq<char>,
    pub domain: Option<Seq<char>>,
    pub cannot_be_a_base: bool,
    pub path_segments: Option<Seq<Seq<char>>>,
}

impl View for ParsedUrl {
    type V = UrlView;

    open spec fn view(&self) -> UrlView {
        UrlView {
            serialization: self.serialization@,
            scheme: self.scheme@,
            domain: match self.domain {
                Some(d) => Some(d@),
                None => None,
            },
            cannot_be_a_base: self.cannot_be_a_base,
            path_segments: match self.path_segments {
                Some(v) => Some(v@.map_values(|s: String| s@)),
                None => None,
            },
        }
    }
}

/// What the URL parser makes of a string: `None` where it is no absolute URL.
pub uninterp spec fn url_parse(raw: Seq<char>) -> Option<UrlView>;

/// The lower-case form of a string, character by character as Unicode defines it.
pub uninterp spec fn lower_of(s: Seq<char>) -> Seq<char>;

/// Relies on url's `Url::parse` and on the accessors `as_str`, `scheme`, `domain`,
/// `cannot_be_a_base` and `path_segments` of the URL it returns: the result depends on the
/// input string alone.
#[verifier::external_body]
pub(crate) fn parse_url(raw: &str) -> (r: Option<ParsedUrl>)
    ensures
        match r {
            Some(u) => url_parse(raw@) == Some(u@),
            None => url_parse(raw@) is None,
        },
{
    let u = url::Url::parse(raw).ok()?;
    Some(ParsedUrl {
        serialization: u.as_str().to_string(),
        scheme: u.scheme().to_string(),
        domain: u.domain().map(|d| d.to_string()),
        cannot_be_a_base: u.cannot_be_a_base(),
        path_segments: u.path_segments().map(|s| s.map(|p| p.to_string()).collect()),
    })
}

/// Relies on std's `str::to_lowercase`: the result depends on the characters alone.
#[verifier::external_body]
fn lowercase(s: &str) -> (r: String)
    ensures
        r@ == lower_of(s@),
{
    s.to_lowercase()
}

/// Why a submitted image URL was refused.
#[derive(Debug, Clone, Copy, PartialEq, Eq, Structural)]
pub enum UrlError {
    /// It does not parse as an absolute URL.
    Malformed,
    /// Its host is no domain.
    NoDomain,
    /// Its domain is not on the allow-list.
    DomainNotAllowed,
    /// It has no hierarchical path.
    NotABase,
    /// Its scheme is none of `http`, `https` and `ftp`.
    InvalidScheme,
}

/// Whether `host` is on the allow-list.
pub open spec fn allows(allowed: Seq<String>, host: Seq<char>) -> bool {
    exists|i: int| 0 <= i < allowed.len() && (#[trigger] allowed[i])@ == host
}

/// The schemes an image may be fetched with.
pub open spec fn scheme_accepted(scheme: Seq<char>) -> bool {
    scheme == "http"@ || scheme == "https"@ || scheme == "ftp"@
}

/// The outcome of checking a parsed URL whose domain, in lower case, is `lowered`.
pub open spec fn parsed_verdict(allowed: Seq<String>, u: UrlView, lowered: Seq<char>) -> Result<UrlView, UrlError> {
    if !allows(allowed, lowered) {
        Err(UrlError::DomainNotAllowed)
    } else if u.cannot_be_a_base {
        Err(UrlError::NotABase)
    } else if !scheme_accepted(u.scheme) {
        Err(UrlError::InvalidScheme)
    } else {
        Ok(u)
    }
}

/// The outcome of checking the raw URL `raw` against the allow-list, step by step.
pub open spec fn url_verdict(allowed: Seq<String>, raw: Seq<char>) -> Result<UrlView, UrlError> {
    match url_parse(raw) {
        None => Err(UrlError::Malformed),
        Some(u) => match u.domain {
            None => Err(UrlError::NoDomain),
            Some(d) => parsed_verdict(allowed, u, lower_of(d)),
        },
    }
}

/// Whether `host` is one of the allowed domains.
fn domain_allowed(allowed: &Vec<String>, host: &String) -> (r: bool)
    ensures
        r == allows(allowed@, host@),
{
    let mut i: usize = 0;
    while i < allowed.len()
        invariant
            i <= allowed@.len(),
            forall|j: int| 0 <= j < i ==> (#[trigger] allowed@[j])@ != host@,
        decreases allowed@.len() - i,
    {
        if allowed[i] == *host {
            return true;
        }
        i = i + 1;
    }
    false
}

/// Checks a submitted image URL: it must parse, have a domain that is on the allow-list (in
/// lower case), have a hierarchical path, and use `http`, `https` or `ftp`.
pub fn validate_url(allowed_domains: &Vec<String>, url: &str) -> (r: Result<ParsedUrl, UrlError>)
    ensures
        match r {
            Ok(u) => url_verdict(allowed_domains@, url@) == Ok::<UrlView, UrlError>(u@),
            Err(e) => url_verdict(allowed_domains@, url@) == Err::<UrlView, UrlError>(e),
        },
{
    let parsed = match parse_url(url) {
        Some(u) => u,
        None => {
            return Err(UrlError::Malformed);
        },
    };
    let lowered = match &parsed.domain {
        Some(domain) => lowercase(domain.as_str()),
        None => {
            return Err(UrlError::NoDomain);
        },
    };
    check_parsed_url(allowed_domains, parsed, &lowered)
}

/// Checks a parsed URL whose domain, in lower case, is `lowered_domain`: the domain must be on
/// the allow-list, the URL must have a hierarchical path and use `http`, `https` or `ftp`.
pub fn check_parsed_url(allowed_domains: &Vec<String>, url: ParsedUrl, lowered_domain: &String) -> (r: Result<ParsedUrl, UrlError>)
    ensures
        match r {
            Ok(u) => parsed_verdict(allowed_domains@, url@, lowered_domain@) == Ok::<UrlView, UrlError>(u@),
            Err(e) => parsed_verdict(allowed_domains@, url@, lowered_domain@) == Err::<UrlView, UrlError>(e),
        },
{
    if !domain_allowed(allowed_domains, lowered_domain) {
        return Err(UrlError::DomainNotAllowed);
    }
    if url.cannot_be_a_base {
        return Err(UrlError::NotABase);
    }
    let http = "http".to_owned();
    let https = "https".to_owned();
    let ftp = "ftp".to_owned();
    if !(url.scheme == http || url.scheme == https || url.scheme == ftp) {
        return Err(UrlError::InvalidScheme);
    }
    Ok(url)
}

} // verus!
