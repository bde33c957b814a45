use vstd::prelude::*;

verus! {

/// One image of a remote album, as the service's API lists it.
#[derive(Debug, Clone)]
pub struct Image {
    pub link: String,
}

/// The body of the service's reply listing an album's images.
#[derive(Debug, Clone)]
pub struct AlbumImages {
    pub data: Vec<Image>,
    pub status: u16,
}

/// Why the service's reply holds no image list.
#[derive(Debug, Clone, Copy, PartialEq, Eq, Structural)]
pub enum FetchError {
    /// The HTTP status is not a success (2xx).
    HttpStatus(u16),
    /// The status inside the reply body is not 200.
    ApiStatus(u16),
}

/// Accepts a reply whose HTTP status is a success.
pub fn check_http_status(status: u16) -> (r: Result<(), FetchError>)
    ensures
        r is Ok <==> 200 <= status <= 299,
        r is Err ==> r == Err::<(), FetchError>(FetchError::HttpStatus(status)),
{
    if 200 <= status && status <= 299 {
        Ok(())
    } else {
        Err(FetchError::HttpStatus(status))
    }
}

/// The image links of a reply body whose own status is 200, in the order listed.
pub fn album_links(body: AlbumImages) -> (r: Result<Vec<String>, FetchError>)
    ensures
        body.status != 200 ==> r == Err::<Vec<String>, FetchError>(FetchError::ApiStatus(body.status)),
        body.status == 200 ==> (r matches Ok(links) && links@.map_values(|s: String| s@)
            == body.data@.map_values(|im: Image| im.link@)),
{
    if body.status != 200 {
        return Err(FetchError::ApiStatus(body.status));
    }
    let mut links: Vec<String> = Vec::new();
    let mut i: usize = 0;
    while i < body.data.len()
        invariant
            i <= body.data@.len(),
            links@.len() == i,
            forall|j: int| 0 <= j < i ==> (#[trigger] links@[j])@ == body.data@[j].link@,
        decreases body.data@.len() - i,
    {
        links.push(body.data[i].link.clone());
        i = i + 1;
    }
    assert(links@.map_values(|s: String| s@) =~= body.data@.map_values(|im: Image| im.link@));
    Ok(links)
}

} // verus!
