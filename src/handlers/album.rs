use crate::config::Config;
use crate::handlers::{parse_form, Failure, FormError};
use crate::models::{opt_str_view, opt_string_view, Album};
use crate::store::{
    lemma_album_token_names_one, lemma_album_tokens_shaped, lemma_table_bounds, StoreError, albums_distinct, lemma_rows_none, lemma_rows_push, lemma_sorted_identity, rows_of, shift_table,
    sorted_by_index, string_views, urls_of, Store,
};
use crate::text::{
    is_whitespace, lemma_trim_len, lemma_trim_trailing, split_on, split_spec, trim, trim_spec,
};
use crate::token::{is_deletion_token, is_token_char};
use crate::validate::{
    allows, lower_of, parse_url, url_parse, url_verdict, validate_url, ParsedUrl, UrlError, UrlView,
};
use vstd::prelude::*;

verus! {

/// What the public album page shows.
#[derive(Debug, Clone)]
pub struct AlbumContext {
    pub title: Option<String>,
    pub token: String,
    pub images: Vec<String>,
}

/// What the edit page shows to the holder of the deletion token.
#[derive(Debug, Clone)]
pub struct AlbumSecretContext {
    pub title: Option<String>,
    pub token: String,
    pub deletion_token: String,
    pub images: Vec<String>,
}

/// What the page that asks for the deletion token shows.
#[derive(Debug, Clone)]
pub struct AuthContext {
    pub title: Option<String>,
    pub token: String,
}

/// The form that submits a deletion token.
#[derive(Debug, Clone)]
pub struct AuthForm {
    pub deletion_token: String,
}

/// The form that edits an album.
#[derive(Debug, Clone)]
pub struct EditAlbumForm {
    pub index: u16,
    pub url: String,
    pub deletion_token: String,
    pub method: String,
}

/// The form that creates an album: a title and a comma-separated list of image URLs.
#[derive(Debug, Clone)]
pub struct NewAlbumForm {
    pub title: String,
    pub images: String,
}

/// The form that imports an album from the third-party service.
#[derive(Debug, Clone)]
pub struct ImportAlbumForm {
    pub title: String,
    pub link: String,
}

/// The reply to a created album: where it lives and its secret, shown this once.
#[derive(Debug, Clone)]
pub struct Created {
    pub location: String,
    pub token: String,
    pub deletion_token: String,
}

/// A granted authorization: the private cookie to set and where to go next.
#[derive(Debug, Clone)]
pub struct AuthGrant {
    pub cookie_name: String,
    pub cookie_value: String,
    pub redirect: String,
}

/// An import, once its form has been read: the title and the remote album's identifier.
#[derive(Debug, Clone)]
pub struct ImportRequest {
    pub title: Option<String>,
    pub album_hash: String,
}

/// An empty title stands for none.
pub open spec fn title_of(title: Seq<char>) -> Option<Seq<char>> {
    if title.len() == 0 {
        None
    } else {
        Some(title)
    }
}

/// Whether `candidate`, once trimmed, is the album's deletion token.
pub open spec fn token_matches(album: Album, candidate: Seq<char>) -> bool {
    album.deletion_token@ == trim_spec(candidate)
}

/// Whether every URL passes the validator.
pub open spec fn all_valid(allowed: Seq<String>, urls: Seq<Seq<char>>) -> bool {
    forall|i: int| 0 <= i < urls.len() ==> (#[trigger] url_verdict(allowed, urls[i])) is Ok
}

/// The normalized form of an accepted URL.
pub open spec fn normalized_url(allowed: Seq<String>, raw: Seq<char>) -> Seq<char> {
    match url_verdict(allowed, raw) {
        Ok(u) => u.serialization,
        Err(_) => Seq::empty(),
    }
}

/// The normalized forms of the URLs, in the same order.
pub open spec fn normalized_urls(allowed: Seq<String>, urls: Seq<Seq<char>>) -> Seq<Seq<char>> {
    urls.map_values(|u: Seq<char>| normalized_url(allowed, u))
}

/// `e` is the validator's verdict on `text`, the first URL it refuses.
pub open spec fn first_refusal(allowed: Seq<String>, urls: Seq<Seq<char>>, e: UrlError, text: Seq<char>) -> bool {
    exists|i: int|
        {
            &&& 0 <= i < urls.len()
            &&& urls[i] == text
            &&& url_verdict(allowed, #[trigger] urls[i]) == Err::<UrlView, UrlError>(e)
            &&& forall|j: int| 0 <= j < i ==> (#[trigger] url_verdict(allowed, urls[j])) is Ok
        }
}

/// `after` is `before` with the album `album` added, titled `title`, holding the images
/// `urls` normalized, at indices counted from zero in the order given.
pub open spec fn album_created(
    before: Store,
    after: Store,
    allowed: Seq<String>,
    title: Option<Seq<char>>,
    urls: Seq<Seq<char>>,
    album: Album,
) -> bool {
    &&& all_valid(allowed, urls)
    &&& urls.len() <= i32::MAX
    &&& album.id == before.albums().len() + 1
    &&& opt_string_view(album.title) == title
    &&& after.albums() == before.albums().push(album)
    &&& after.images().len() == before.images().len() + urls.len()
    &&& after.images().subrange(0, before.images().len() as int) == before.images()
    &&& forall|j: int| 0 <= j < urls.len() ==> (#[trigger] rows_of(after.images(), album.id)[j]).index == j
    &&& rows_of(after.images(), album.id).len() == urls.len()
    &&& urls_of(sorted_by_index(rows_of(after.images(), album.id))) == normalized_urls(allowed, urls)
}

/// `f` is the reason why creating an album from `urls` fails, nothing having been written. A
/// storage failure other than a full table needs a random token to collide, which cannot
/// happen in an empty store with at most one image.
pub open spec fn creation_refused(
    before: Store,
    after: Store,
    allowed: Seq<String>,
    urls: Seq<Seq<char>>,
    f: Failure,
) -> bool {
    &&& after.albums() == before.albums()
    &&& after.images() == before.images()
    &&& match f {
        Failure::InvalidUrl(e, text) => first_refusal(allowed, urls, e, text@),
        Failure::TooManyImages => all_valid(allowed, urls) && urls.len() > i32::MAX,
        Failure::Storage(e) => {
            &&& all_valid(allowed, urls)
            &&& urls.len() <= i32::MAX
            &&& e == StoreError::Full || e == StoreError::DuplicateToken
            &&& (e == StoreError::Full <==> before.albums().len() >= i32::MAX
                || before.images().len() + urls.len() > i32::MAX)
            &&& (e == StoreError::DuplicateToken ==> before.albums().len() > 0
                || before.images().len() > 0 || urls.len() > 1)
        },
        _ => false,
    }
}

/// An album's own deletion token authorizes it, also with whitespace after it; no other
/// string of the same length does.
pub proof fn lemma_authorization(album: Album, other: Seq<char>, trailing: Seq<char>)
    requires
        is_deletion_token(album.deletion_token@),
        other.len() == album.deletion_token@.len(),
        other != album.deletion_token@,
        forall|i: int| 0 <= i < trailing.len() ==> is_whitespace(#[trigger] trailing[i]),
    ensures
        token_matches(album, album.deletion_token@),
        token_matches(album, album.deletion_token@ + trailing),
        !token_matches(album, other),
{
    let t = album.deletion_token@;
    assert(is_token_char(t[0]) && is_token_char(t.last()));
    lemma_trim_trailing(t, Seq::empty());
    assert(t + Seq::<char>::empty() =~= t);
    lemma_trim_trailing(t, trailing);
    lemma_trim_len(other);
}

/// The same holds of every album of a well-formed store, whose deletion token always has the
/// shape of one.
pub proof fn lemma_store_authorization(store: Store, album: Album, other: Seq<char>, trailing: Seq<char>)
    requires
        store.wf(),
        store.albums().contains(album),
        other.len() == album.deletion_token@.len(),
        other != album.deletion_token@,
        forall|i: int| 0 <= i < trailing.len() ==> is_whitespace(#[trigger] trailing[i]),
    ensures
        token_matches(album, album.deletion_token@),
        token_matches(album, album.deletion_token@ + trailing),
        !token_matches(album, other),
{
    lemma_album_tokens_shaped(store, album);
    lemma_authorization(album, other, trailing);
}

/// A URL whose domain is not on the allow-list is refused for that reason, and no album can
/// be created from a list that holds a refused URL.
pub proof fn lemma_disallowed_domain_refused(
    before: Store,
    after: Store,
    allowed: Seq<String>,
    title: Option<Seq<char>>,
    urls: Seq<Seq<char>>,
    k: int,
    album: Album,
)
    requires
        0 <= k < urls.len(),
        url_parse(urls[k]) matches Some(u) && u.domain matches Some(d) && !allows(allowed, lower_of(d)),
    ensures
        url_verdict(allowed, urls[k]) == Err::<UrlView, UrlError>(UrlError::DomainNotAllowed),
        !album_created(before, after, allowed, title, urls, album),
{
    assert(!(url_verdict(allowed, urls[k]) is Ok));
}

/// The album that a creation added is the one its public token finds, and its page lists the
/// submitted URLs, normalized, in the order they were given.
pub proof fn lemma_created_album_found(
    before: Store,
    after: Store,
    allowed: Seq<String>,
    title: Option<Seq<char>>,
    urls: Seq<Seq<char>>,
    album: Album,
    found: Album,
)
    requires
        after.wf(),
        album_created(before, after, allowed, title, urls, album),
        is_album_of(after, album.token@, found),
    ensures
        found == album,
        listed_urls(after, found) == normalized_urls(allowed, urls),
{
    let albums = after.albums();
    let last = albums.len() - 1;
    assert(albums[last] == album);
    let i = choose|i: int| 0 <= i < albums.len() && albums[i] == found;
    if i != last {
        assert(albums_distinct(albums[i], albums[last]));
    }
}

/// Looks an album up by its public token.
pub fn get_album(store: &Store, token: &str) -> (r: Result<Album, Failure>)
    ensures
        match r {
            Ok(a) => store.albums().contains(a) && a.token@ == token@,
            Err(f) => f == Failure::NotFound && forall|i: int|
                0 <= i < store.albums().len() ==> (#[trigger] store.albums()[i]).token@ != token@,
        },
{
    match Album::by_token(store, token) {
        Some(a) => Ok(a),
        None => Err(Failure::NotFound),
    }
}

/// Whether `candidate`, without surrounding whitespace, is the album's deletion token.
pub fn deletion_token_matches(album: &Album, candidate: &str) -> (r: bool)
    ensures
        r == token_matches(*album, candidate@),
{
    let trimmed = trim(candidate).to_owned();
    album.deletion_token == trimmed
}

/// Lets the request through only with the album's deletion token.
pub fn check_deletion_token(album: &Album, deletion_token: &str) -> (r: Result<(), Failure>)
    ensures
        r is Ok <==> token_matches(*album, deletion_token@),
        r is Err ==> r == Err::<(), Failure>(Failure::Forbidden),
{
    if deletion_token_matches(album, deletion_token) {
        Ok(())
    } else {
        Err(Failure::Forbidden)
    }
}

/// Lets the request through only with a session cookie that holds the album's deletion token.
pub fn check_deletion_token_cookie(album: &Album, cookie: Option<&str>) -> (r: Result<(), Failure>)
    ensures
        match cookie {
            None => r == Err::<(), Failure>(Failure::Unauthorized),
            Some(c) => (r is Ok <==> token_matches(*album, c@)) && (r is Err ==> r == Err::<
                (),
                Failure,
            >(Failure::Forbidden)),
        },
{
    match cookie {
        Some(value) => check_deletion_token(album, value),
        None => Err(Failure::Unauthorized),
    }
}

/// The address of an album's page.
fn album_location(token: &String) -> (r: String)
    ensures
        r@ == "/a/"@ + token@,
{
    "/a/".to_owned().concat(token.as_str())
}

fn title_option(title: &String) -> (r: Option<&str>)
    ensures
        opt_str_view(r) == title_of(title@),
{
    let t = title.as_str();
    if t.unicode_len() == 0 {
        None
    } else {
        Some(t)
    }
}

/// Validates every URL and, only where all pass, creates the album with the images in the
/// order given; nothing is written where anything fails.
pub fn create_album(
    store: &mut Store,
    allowed_domains: &Vec<String>,
    title: Option<&str>,
    urls: &Vec<String>,
) -> (r: Result<Album, Failure>)
    requires
        old(store).wf(),
    ensures
        final(store).wf(),
        match r {
            Ok(album) => album_created(
                *old(store),
                *final(store),
                allowed_domains@,
                opt_str_view(title),
                string_views(urls@),
                album,
            ),
            Err(f) => creation_refused(*old(store), *final(store), allowed_domains@, string_views(urls@), f),
        },
{
    let ghost raw = string_views(urls@);
    let mut normalized: Vec<String> = Vec::new();
    let mut i: usize = 0;
    while i < urls.len()
        invariant
            i <= urls@.len(),
            raw == string_views(urls@),
            *store == *old(store),
            store.wf(),
            normalized@.len() == i,
            forall|j: int| 0 <= j < i ==> (#[trigger] url_verdict(allowed_domains@, raw[j])) is Ok,
            forall|j: int|
                0 <= j < i ==> (#[trigger] normalized@[j])@ == normalized_url(allowed_domains@, raw[j]),
        decreases urls@.len() - i,
    {
        match validate_url(allowed_domains, urls[i].as_str()) {
            Ok(u) => {
                normalized.push(u.serialization);
            },
            Err(e) => {
                assert(url_verdict(allowed_domains@, raw[i as int]) == Err::<UrlView, UrlError>(e));
                return Err(Failure::InvalidUrl(e, urls[i].clone()));
            },
        }
        i = i + 1;
    }
    if normalized.len() > i32::MAX as usize {
        return Err(Failure::TooManyImages);
    }
    let ghost start = *store;
    let n_albums = store.album_total();
    let n_images = store.image_total();
    proof {
        lemma_table_bounds(*store);
    }
    if n_albums >= i32::MAX as usize || normalized.len() > i32::MAX as usize - n_images {
        return Err(Failure::Storage(StoreError::Full));
    }
    let album = match Album::new(store, title) {
        Ok(a) => a,
        Err(e) => {
            return Err(Failure::Storage(e));
        },
    };
    proof {
        assert forall|j: int| 0 <= j < start.images().len() implies (#[trigger] start.images()[j]).album_id
            != album.id by {}
        lemma_rows_none(start.images(), album.id);
    }
    let mut k: usize = 0;
    while k < normalized.len()
        invariant
            k <= normalized@.len(),
            normalized@.len() <= i32::MAX,
            n_images + normalized@.len() <= i32::MAX,
            start == *old(store),
            raw == string_views(urls@),
            normalized@.len() == raw.len(),
            all_valid(allowed_domains@, raw),
            forall|j: int|
                0 <= j < raw.len() ==> (#[trigger] normalized@[j])@ == normalized_url(allowed_domains@, raw[j]),
            store.wf(),
            start.wf(),
            n_albums == start.albums().len(),
            n_images == start.images().len(),
            album.id == start.albums().len() + 1,
            store.albums() == start.albums().push(album),
            store.images().len() == start.images().len() + k,
            store.images().subrange(0, n_images as int) == start.images(),
            rows_of(store.images(), album.id).len() == k,
            forall|j: int| 0 <= j < k ==> (#[trigger] rows_of(store.images(), album.id)[j]).index == j,
            forall|j: int|
                0 <= j < k ==> (#[trigger] rows_of(store.images(), album.id)[j]).url@ == normalized@[j]@,
        decreases normalized@.len() - k,
    {
        let ghost mid = *store;
        match album.add_image(store, normalized[k].as_str(), k as i32) {
            Ok(image) => {
                proof {
                    lemma_rows_push(mid.images(), image, album.id);
                    assert(store.images().subrange(0, n_images as int) =~= mid.images().subrange(0, n_images as int));
                }
            },
            Err(e) => {
                proof {
                    assert(store.albums().subrange(0, n_albums as int) =~= start.albums());
                }
                store.rollback(n_albums, n_images);
                return Err(Failure::Storage(e));
            },
        }
        k = k + 1;
    }
    proof {
        let rows = rows_of(store.images(), album.id);
        lemma_sorted_identity(rows);
        assert(urls_of(rows) =~= normalized_urls(allowed_domains@, raw));
    }
    Ok(album)
}

/// Creates an album from the new-album form: every URL of the comma-separated list must pass
/// the validator, and an empty title stands for none.
pub fn new(store: &mut Store, config: &Config, sink: Result<NewAlbumForm, FormError>) -> (r: Result<Created, Failure>)
    requires
        old(store).wf(),
    ensures
        final(store).wf(),
        match sink {
            Err(e) => {
                &&& r == Err::<Created, Failure>(Failure::Form(e))
                &&& *final(store) == *old(store)
            },
            Ok(form) => match r {
                Ok(c) => {
                    let album = final(store).albums().last();
                    &&& album_created(
                        *old(store),
                        *final(store),
                        config.allowed_domains@,
                        title_of(form.title@),
                        split_spec(form.images@, ','),
                        album,
                    )
                    &&& c.token@ == album.token@
                    &&& c.deletion_token@ == album.deletion_token@
                    &&& c.location@ == "/a/"@ + album.token@
                },
                Err(f) => creation_refused(
                    *old(store),
                    *final(store),
                    config.allowed_domains@,
                    split_spec(form.images@, ','),
                    f,
                ),
            },
        },
{
    let form = match parse_form(sink) {
        Ok(f) => f,
        Err(f) => {
            return Err(f);
        },
    };
    let urls = split_on(form.images.as_str(), ',');
    let album = create_album(store, &config.allowed_domains, title_option(&form.title), &urls)?;
    Ok(Created {
        location: album_location(&album.token),
        token: album.token.clone(),
        deletion_token: album.deletion_token.clone(),
    })
}

/// Whether the two stores hold the same rows.
pub open spec fn same_tables(a: Store, b: Store) -> bool {
    a.albums() == b.albums() && a.images() == b.images()
}

/// Whether some album has the public token `token`.
pub open spec fn has_album(store: Store, token: Seq<char>) -> bool {
    exists|i: int| 0 <= i < store.albums().len() && (#[trigger] store.albums()[i]).token@ == token
}

/// `album` is the album of `store` with the public token `token`.
pub open spec fn is_album_of(store: Store, token: Seq<char>, album: Album) -> bool {
    store.albums().contains(album) && album.token@ == token
}

/// The album's image URLs as its page lists them.
pub open spec fn listed_urls(store: Store, album: Album) -> Seq<Seq<char>> {
    urls_of(sorted_by_index(rows_of(store.images(), album.id)))
}

/// Whether an edit of `album` is authorized: by the token in the form, or by the session
/// cookie.
pub open spec fn edit_authorized(album: Album, form_token: Seq<char>, cookie: Option<&str>) -> bool {
    token_matches(album, form_token) || match cookie {
        Some(c) => token_matches(album, c@),
        None => false,
    }
}

/// The remote album a parsed import link names, or why it names none: the link is refused
/// for a reason, or its path has no segment for the album (`None`).
pub open spec fn album_hash_verdict(u: UrlView) -> Result<Seq<char>, Option<UrlError>> {
    if u.domain != Some("imgur.com"@) {
        Err(Some(UrlError::DomainNotAllowed))
    } else {
        match u.path_segments {
            None => Err(Some(UrlError::NotABase)),
            Some(segments) => if segments.len() < 2 {
                Err(None)
            } else {
                Ok(segments[1])
            },
        }
    }
}

/// What an import link leads to: the remote album's identifier, or why it leads nowhere
/// together with the URL text that the reply names.
pub open spec fn import_link_verdict(link: Seq<char>) -> Result<Seq<char>, (Option<UrlError>, Seq<char>)> {
    match url_parse(link) {
        None => Err((Some(UrlError::Malformed), link)),
        Some(u) => match album_hash_verdict(u) {
            Ok(h) => Ok(h),
            Err(why) => Err((why, u.serialization)),
        },
    }
}

/// Whether `f` reports that the import link `text` was refused for `why`.
pub open spec fn reports_link_refusal(f: Failure, why: Option<UrlError>, text: Seq<char>) -> bool {
    match why {
        Some(e) => (f matches Failure::InvalidUrl(e2, t) && e2 == e && t@ == text),
        None => f == Failure::NoAlbumHash,
    }
}

/// The identifier of the remote album that a parsed import link names: the second segment of
/// the path of a link on the service's own domain.
pub fn album_hash(url: &ParsedUrl) -> (r: Result<String, Failure>)
    ensures
        match r {
            Ok(h) => album_hash_verdict(url@) == Ok::<Seq<char>, Option<UrlError>>(h@),
            Err(f) => album_hash_verdict(url@) is Err && reports_link_refusal(
                f,
                album_hash_verdict(url@)->Err_0,
                url.serialization@,
            ),
        },
{
    let service = "imgur.com".to_owned();
    let on_service = match &url.domain {
        Some(d) => *d == service,
        None => false,
    };
    if !on_service {
        return Err(Failure::InvalidUrl(UrlError::DomainNotAllowed, url.serialization.clone()));
    }
    let segments = match &url.path_segments {
        Some(s) => s,
        None => {
            return Err(Failure::InvalidUrl(UrlError::NotABase, url.serialization.clone()));
        },
    };
    if segments.len() < 2 {
        return Err(Failure::NoAlbumHash);
    }
    Ok(segments[1].clone())
}

/// Reads the import form: the link must be a third-party album link whose second path segment
/// names the album.
pub fn import_request(sink: Result<ImportAlbumForm, FormError>) -> (r: Result<ImportRequest, Failure>)
    ensures
        match sink {
            Err(e) => r == Err::<ImportRequest, Failure>(Failure::Form(e)),
            Ok(form) => match r {
                Ok(req) => {
                    &&& import_link_verdict(form.link@) == Ok::<
                        Seq<char>,
                        (Option<UrlError>, Seq<char>),
                    >(req.album_hash@)
                    &&& opt_string_view(req.title) == title_of(form.title@)
                },
                Err(f) => import_link_verdict(form.link@) matches Err((why, text))
                    && reports_link_refusal(f, why, text),
            },
        },
{
    let form = parse_form(sink)?;
    let url = match parse_url(form.link.as_str()) {
        Some(u) => u,
        None => {
            return Err(Failure::InvalidUrl(UrlError::Malformed, form.link.clone()));
        },
    };
    let album_hash = album_hash(&url)?;
    let title = match title_option(&form.title) {
        Some(t) => Some(t.to_owned()),
        None => None,
    };
    Ok(ImportRequest { title, album_hash })
}

/// Creates the album of an import from the remote album's image links, as the new-album form
/// does with its URLs; a failed fetch is reported as such.
pub fn import(
    store: &mut Store,
    config: &Config,
    request: &ImportRequest,
    links: Result<Vec<String>, String>,
) -> (r: Result<Created, Failure>)
    requires
        old(store).wf(),
    ensures
        final(store).wf(),
        match links {
            Err(why) => {
                &&& r == Err::<Created, Failure>(Failure::Import(why))
                &&& *final(store) == *old(store)
            },
            Ok(links) => match r {
                Ok(c) => {
                    let album = final(store).albums().last();
                    &&& album_created(
                        *old(store),
                        *final(store),
                        config.allowed_domains@,
                        opt_string_view(request.title),
                        string_views(links@),
                        album,
                    )
                    &&& c.token@ == album.token@
                    &&& c.deletion_token@ == album.deletion_token@
                    &&& c.location@ == "/a/"@ + album.token@
                },
                Err(f) => creation_refused(
                    *old(store),
                    *final(store),
                    config.allowed_domains@,
                    string_views(links@),
                    f,
                ),
            },
        },
{
    let links = match links {
        Ok(l) => l,
        Err(why) => {
            return Err(Failure::Import(why));
        },
    };
    let title = match &request.title {
        Some(t) => Some(t.as_str()),
        None => None,
    };
    let album = create_album(store, &config.allowed_domains, title, &links)?;
    Ok(Created {
        location: album_location(&album.token),
        token: album.token.clone(),
        deletion_token: album.deletion_token.clone(),
    })
}

/// The public page of an album: its title, token and image URLs, without its secret.
pub fn get(store: &Store, token: &str) -> (r: Result<AlbumContext, Failure>)
    requires
        store.wf(),
    ensures
        match r {
            Ok(ctx) => exists|album: Album|
                {
                    &&& is_album_of(*store, token@, album)
                    &&& ctx.title == album.title
                    &&& ctx.token == album.token
                    &&& string_views(ctx.images@) == listed_urls(*store, album)
                },
            Err(f) => f == Failure::NotFound && !has_album(*store, token@),
        },
{
    let album = get_album(store, token)?;
    let images = album.get_image_urls(store);
    let ghost a = album;
    let ctx = AlbumContext { title: album.title, token: album.token, images };
    assert(is_album_of(*store, token@, a) && ctx.title == a.title && ctx.token == a.token
        && string_views(ctx.images@) == listed_urls(*store, a));
    Ok(ctx)
}

/// Whether an album with the public token exists.
pub fn head(store: &Store, token: &str) -> (r: Result<(), Failure>)
    ensures
        r is Ok <==> has_album(*store, token@),
        r is Err ==> r == Err::<(), Failure>(Failure::NotFound),
{
    get_album(store, token)?;
    Ok(())
}

/// The page that asks for an album's deletion token.
pub fn get_auth(store: &Store, token: &str) -> (r: Result<AuthContext, Failure>)
    ensures
        match r {
            Ok(ctx) => exists|album: Album|
                {
                    &&& is_album_of(*store, token@, album)
                    &&& ctx.title == album.title
                    &&& ctx.token == album.token
                },
            Err(f) => f == Failure::NotFound && !has_album(*store, token@),
        },
{
    let album = get_album(store, token)?;
    let ghost a = album;
    let ctx = AuthContext { title: album.title, token: album.token };
    assert(is_album_of(*store, token@, a) && ctx.title == a.title && ctx.token == a.token);
    Ok(ctx)
}

/// Checks a submitted deletion token and, where it is the album's, grants a private cookie
/// named after the album's public token that holds the deletion token.
pub fn post_auth(store: &Store, token: &str, sink: Result<AuthForm, FormError>) -> (r: Result<AuthGrant, Failure>)
    ensures
        match sink {
            Err(e) => r == Err::<AuthGrant, Failure>(Failure::Form(e)),
            Ok(form) => match r {
                Ok(grant) => exists|album: Album|
                    {
                        &&& is_album_of(*store, token@, album)
                        &&& token_matches(album, form.deletion_token@)
                        &&& grant.cookie_name@ == album.token@
                        &&& grant.cookie_value@ == album.deletion_token@
                        &&& grant.redirect@ == "/a/"@ + token@ + "/edit"@
                    },
                Err(f) => {
                    ||| f == Failure::NotFound && !has_album(*store, token@)
                    ||| f == Failure::Forbidden && exists|album: Album|
                        is_album_of(*store, token@, album) && !token_matches(album, form.deletion_token@)
                },
            },
        },
{
    let form = parse_form(sink)?;
    let album = get_album(store, token)?;
    check_deletion_token(&album, form.deletion_token.as_str())?;
    let redirect = "/a/".to_owned().concat(token).concat("/edit");
    Ok(AuthGrant { cookie_name: album.token, cookie_value: album.deletion_token, redirect })
}

/// The edit page, for a session that holds the album's deletion token in its cookie.
pub fn get_edit(store: &Store, token: &str, cookie: Option<&str>) -> (r: Result<AlbumSecretContext, Failure>)
    requires
        store.wf(),
    ensures
        match r {
            Ok(ctx) => exists|album: Album|
                {
                    &&& is_album_of(*store, token@, album)
                    &&& cookie is Some && token_matches(album, cookie->0@)
                    &&& ctx.title == album.title
                    &&& ctx.token == album.token
                    &&& ctx.deletion_token == album.deletion_token
                    &&& string_views(ctx.images@) == listed_urls(*store, album)
                },
            Err(f) => {
                ||| f == Failure::NotFound && !has_album(*store, token@)
                ||| f == Failure::Unauthorized && has_album(*store, token@) && cookie is None
                ||| f == Failure::Forbidden && exists|album: Album|
                    is_album_of(*store, token@, album) && cookie is Some && !token_matches(album, cookie->0@)
            },
        },
{
    let album = get_album(store, token)?;
    check_deletion_token_cookie(&album, cookie)?;
    let images = album.get_image_urls(store);
    let ghost a = album;
    let ctx = AlbumSecretContext {
        title: album.title,
        token: album.token,
        deletion_token: album.deletion_token,
        images,
    };
    assert(is_album_of(*store, token@, a) && cookie is Some && token_matches(a, cookie->0@)
        && ctx.title == a.title && ctx.token == a.token && ctx.deletion_token == a.deletion_token
        && string_views(ctx.images@) == listed_urls(*store, a));
    Ok(ctx)
}

/// `after` is `before` with the image `url` inserted into `album` at `index`, the images at
/// `index` or beyond moved one place up where the album had more than `index` images.
pub open spec fn image_inserted(before: Store, after: Store, album: Album, url: Seq<char>, index: u16) -> bool {
    let rows = rows_of(before.images(), album.id);
    let new_rows = rows_of(after.images(), album.id);
    let image = new_rows.last();
    &&& after.albums() == before.albums()
    &&& new_rows.len() == rows.len() + 1
    &&& image.album_id == album.id
    &&& image.url@ == url
    &&& image.index == index as i32
    &&& new_rows == if rows.len() > index {
        shift_table(rows, album.id, index as i32).push(image)
    } else {
        rows.push(image)
    }
}

/// `e` is why the store refused to insert an image into `album` at `index`: its image table
/// is full, the album is unknown, a shift would overflow an index, or (only where an image
/// exists already) a random token collided.
pub open spec fn insert_refused(before: Store, album: Album, index: u16, e: StoreError) -> bool {
    let images = before.images();
    let full = images.len() >= i32::MAX;
    let known = 1 <= album.id <= before.albums().len();
    &&& e == StoreError::Full || e == StoreError::UnknownAlbum || e == StoreError::DuplicateToken
        || e == StoreError::IndexOverflow
    &&& (e == StoreError::Full <==> full)
    &&& (e == StoreError::UnknownAlbum <==> !full && !known)
    &&& (e == StoreError::IndexOverflow <==> !full && known && rows_of(images, album.id).len() > index
        && Store::shift_overflows(images, album.id, index as i32))
    &&& (e == StoreError::DuplicateToken ==> images.len() > 0)
}

/// Inserts the form's image into the album, where its URL passes the validator.
pub fn insert_image(store: &mut Store, allowed_domains: &Vec<String>, album: &Album, form: &EditAlbumForm) -> (r: Result<(), Failure>)
    requires
        old(store).wf(),
    ensures
        final(store).wf(),
        match r {
            Ok(()) => {
                &&& url_verdict(allowed_domains@, form.url@) is Ok
                &&& image_inserted(*old(store), *final(store), *album, normalized_url(allowed_domains@, form.url@), form.index)
            },
            Err(f) => {
                &&& same_tables(*old(store), *final(store))
                &&& match f {
                    Failure::InvalidUrl(e, text) => url_verdict(allowed_domains@, form.url@) == Err::<
                        UrlView,
                        UrlError,
                    >(e) && text@ == form.url@,
                    Failure::Storage(e) => url_verdict(allowed_domains@, form.url@) is Ok
                        && insert_refused(*old(store), *album, form.index, e),
                    _ => false,
                }
            },
        },
{
    let url = match validate_url(allowed_domains, form.url.as_str()) {
        Ok(u) => u,
        Err(e) => {
            return Err(Failure::InvalidUrl(e, form.url.clone()));
        },
    };
    match album.insert_image_at(store, url.serialization.as_str(), form.index) {
        Ok(image) => {
            proof {
                let rows = rows_of(old(store).images(), album.id);
                assert(image.album_id == album.id && image.url@ == normalized_url(allowed_domains@, form.url@)
                    && image.index == form.index as i32 && final(store).albums() == old(store).albums()
                    && rows_of(final(store).images(), album.id) == if rows.len() > form.index {
                    shift_table(rows, album.id, form.index as i32).push(image)
                } else {
                    rows.push(image)
                });
                let new_rows = rows_of(final(store).images(), album.id);
                assert(new_rows.last() == image);
                assert(new_rows.len() == rows.len() + 1);
                assert(image_inserted(*old(store), *final(store), *album, normalized_url(allowed_domains@, form.url@), form.index));
            }
            Ok(())
        },
        Err(e) => Err(Failure::Storage(e)),
    }
}

/// What an edit of the existing album `album` owes: `Forbidden` without its deletion token,
/// then `InvalidMethod` for any operation but `insert`, then the validator's refusal of the
/// URL; past those, the insert or the store's reason for refusing it.
pub open spec fn edit_outcome(
    before: Store,
    after: Store,
    allowed: Seq<String>,
    album: Album,
    form: EditAlbumForm,
    cookie: Option<&str>,
    r: Result<AlbumSecretContext, Failure>,
) -> bool {
    if !edit_authorized(album, form.deletion_token@, cookie) {
        r == Err::<AlbumSecretContext, Failure>(Failure::Forbidden)
    } else if form.method@ != "insert"@ {
        r == Err::<AlbumSecretContext, Failure>(Failure::InvalidMethod(form.method))
    } else {
        match url_verdict(allowed, form.url@) {
            Err(e) => (r matches Err(Failure::InvalidUrl(e2, text)) && e2 == e && text@ == form.url@),
            Ok(_) => match r {
                Ok(ctx) => {
                    &&& image_inserted(before, after, album, normalized_url(allowed, form.url@), form.index)
                    &&& ctx.title == album.title
                    &&& ctx.token == album.token
                    &&& ctx.deletion_token == album.deletion_token
                    &&& string_views(ctx.images@) == listed_urls(after, album)
                },
                Err(f) => (f matches Failure::Storage(e) && insert_refused(before, album, form.index, e)),
            },
        }
    }
}

/// Applies the edit form to `album`; see `edit_outcome`.
fn apply_edit(
    store: &mut Store,
    config: &Config,
    album: Album,
    form: EditAlbumForm,
    cookie: Option<&str>,
) -> (r: Result<AlbumSecretContext, Failure>)
    requires
        old(store).wf(),
    ensures
        final(store).wf(),
        edit_outcome(*old(store), *final(store), config.allowed_domains@, album, form, cookie, r),
        r is Err ==> same_tables(*old(store), *final(store)),
{
    let by_form = deletion_token_matches(&album, form.deletion_token.as_str());
    let by_cookie = match cookie {
        Some(c) => deletion_token_matches(&album, c),
        None => false,
    };
    if !(by_form || by_cookie) {
        return Err(Failure::Forbidden);
    }
    let insert = "insert".to_owned();
    if form.method != insert {
        return Err(Failure::InvalidMethod(form.method));
    }
    match insert_image(store, &config.allowed_domains, &album, &form) {
        Ok(()) => {},
        Err(f) => {
            return Err(f);
        },
    }
    let images = album.get_image_urls(store);
    Ok(AlbumSecretContext {
        title: album.title,
        token: album.token,
        deletion_token: album.deletion_token,
        images,
    })
}

/// Applies the edit form to an album, for the holder of its deletion token (in the form or in
/// the session cookie); `insert` is the one operation.
pub fn post_edit(
    store: &mut Store,
    config: &Config,
    token: &str,
    sink: Result<EditAlbumForm, FormError>,
    cookie: Option<&str>,
) -> (r: Result<AlbumSecretContext, Failure>)
    requires
        old(store).wf(),
    ensures
        final(store).wf(),
        r is Err ==> same_tables(*old(store), *final(store)),
        match sink {
            Err(e) => r == Err::<AlbumSecretContext, Failure>(Failure::Form(e)),
            Ok(form) => {
                &&& !has_album(*old(store), token@) ==> r == Err::<AlbumSecretContext, Failure>(
                    Failure::NotFound,
                )
                &&& forall|album: Album|
                    #[trigger] is_album_of(*old(store), token@, album) ==> edit_outcome(
                        *old(store),
                        *final(store),
                        config.allowed_domains@,
                        album,
                        form,
                        cookie,
                        r,
                    )
            },
        },
{
    let form = parse_form(sink)?;
    let album = match get_album(store, token) {
        Ok(a) => a,
        Err(f) => {
            proof {
                assert forall|a: Album| is_album_of(*old(store), token@, a) implies false by {
                    let i = choose|i: int| 0 <= i < old(store).albums().len() && old(store).albums()[i] == a;
                    assert(old(store).albums()[i].token@ != token@);
                }
            }
            return Err(f);
        },
    };
    let ghost found = album;
    proof {
        let i = choose|i: int| 0 <= i < old(store).albums().len() && old(store).albums()[i] == found;
        assert(old(store).albums()[i].token@ == token@);
    }
    let r = apply_edit(store, config, album, form, cookie);
    proof {
        assert forall|a: Album| is_album_of(*old(store), token@, a) implies edit_outcome(
            *old(store),
            *final(store),
            config.allowed_domains@,
            a,
            form,
            cookie,
            r,
        ) by {
            lemma_album_token_names_one(*old(store), found, a);
        }
    }
    r
}

} // verus!
