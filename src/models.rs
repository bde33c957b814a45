use crate::store::{lemma_rows_push, lemma_rows_shift, rows_of, shift_table, string_views, sorted_by_index, urls_of, Store, StoreError};
pub use crate::token::generate_token_pair;
use vstd::prelude::*;

verus! {

/// An album row.
#[derive(Debug, Clone)]
pub struct Album {
    pub id: i32,
    pub token: String,
    pub deletion_token: String,
    pub title: Option<String>,
}

/// The values of an album row that is about to be inserted.
#[derive(Debug, Clone)]
pub struct NewAlbum {
    pub token: String,
    pub deletion_token: String,
    pub title: Option<String>,
}

/// An image row: one URL at one position of one album.
#[derive(Debug, Clone)]
pub struct Image {
    pub id: i32,
    pub album_id: i32,
    pub token: String,
    pub deletion_token: String,
    pub url: String,
    pub index: i32,
}

/// The values of an image row that is about to be inserted.
#[derive(Debug, Clone)]
pub struct NewImage {
    pub album_id: i32,
    pub token: String,
    pub deletion_token: String,
    pub url: String,
    pub index: i32,
}

/// How many token pairs a write draws before it gives up on collisions.
pub const TOKEN_ATTEMPTS: usize = 5;

/// The view of an optional owned string.
pub open spec fn opt_string_view(t: Option<String>) -> Option<Seq<char>> {
    match t {
        Some(s) => Some(s@),
        None => None,
    }
}

/// The view of an optional borrowed string.
pub open spec fn opt_str_view(t: Option<&str>) -> Option<Seq<char>> {
    match t {
        Some(s) => Some(s@),
        None => None,
    }
}

fn owned_title(title: Option<&str>) -> (r: Option<String>)
    ensures
        opt_string_view(r) == opt_str_view(title),
{
    match title {
        Some(t) => Some(t.to_owned()),
        None => None,
    }
}

impl Album {
    /// Creates an album with a fresh token pair. A pair that collides with an existing album is
    /// drawn again, up to `TOKEN_ATTEMPTS` times in all.
    pub fn new(store: &mut Store, title: Option<&str>) -> (r: Result<Album, StoreError>)
        requires
            old(store).wf(),
        ensures
            final(store).wf(),
            final(store).images() == old(store).images(),
            match r {
                Ok(album) => {
                    &&& album.id == old(store).albums().len() + 1
                    &&& opt_string_view(album.title) == opt_str_view(title)
                    &&& final(store).albums() == old(store).albums().push(album)
                },
                Err(e) => {
                    &&& e == StoreError::Full || e == StoreError::DuplicateToken
                    &&& (e == StoreError::Full <==> old(store).albums().len() >= i32::MAX)
                    &&& (e == StoreError::DuplicateToken ==> old(store).albums().len() > 0)
                    &&& final(store).albums() == old(store).albums()
                },
            },
    {
        if store.album_total() >= i32::MAX as usize {
            return Err(StoreError::Full);
        }
        let ghost start = *store;
        let mut attempt: usize = 0;
        while attempt < TOKEN_ATTEMPTS
            invariant
                store.wf(),
                store.albums() == start.albums(),
                store.images() == start.images(),
                start == *old(store),
                start.albums().len() < i32::MAX,
                attempt > 0 ==> start.albums().len() > 0,
            decreases TOKEN_ATTEMPTS - attempt,
        {
            let (token, deletion_token) = generate_token_pair();
            let new = NewAlbum { token, deletion_token, title: owned_title(title) };
            match store.insert_album(&new) {
                Ok(album) => {
                    return Ok(album);
                },
                Err(StoreError::DuplicateToken) => {},
                Err(e) => {
                    return Err(e);
                },
            }
            attempt = attempt + 1;
        }
        Err(StoreError::DuplicateToken)
    }

    /// The album whose public token is `token`, if any.
    pub fn by_token(store: &Store, token: &str) -> (r: Option<Album>)
        ensures
            match r {
                Some(a) => store.albums().contains(a) && a.token@ == token@,
                None => forall|i: int|
                    0 <= i < store.albums().len() ==> (#[trigger] store.albums()[i]).token@ != token@,
            },
    {
        store.album_by_token(token)
    }

    /// The album whose deletion token is `token`, if any.
    pub fn by_deletion_token(store: &Store, token: &str) -> (r: Option<Album>)
        ensures
            match r {
                Some(a) => store.albums().contains(a) && a.deletion_token@ == token@,
                None => forall|i: int|
                    0 <= i < store.albums().len() ==> (#[trigger] store.albums()[i]).deletion_token@
                        != token@,
            },
    {
        store.album_by_deletion_token(token)
    }

    /// Appends an image at `index` to this album; the indices of the other images stay.
    pub fn add_image(&self, store: &mut Store, url: &str, index: i32) -> (r: Result<Image, StoreError>)
        requires
            old(store).wf(),
        ensures
            final(store).wf(),
            final(store).albums() == old(store).albums(),
            match r {
                Ok(image) => {
                    &&& image.id == old(store).images().len() + 1
                    &&& image.album_id == self.id
                    &&& image.url@ == url@
                    &&& image.index == index
                    &&& final(store).images() == old(store).images().push(image)
                },
                Err(e) => {
                    &&& e == StoreError::Full || e == StoreError::UnknownAlbum || e == StoreError::DuplicateToken
                    &&& (e == StoreError::Full <==> old(store).images().len() >= i32::MAX)
                    &&& (e == StoreError::UnknownAlbum <==> old(store).images().len() < i32::MAX
                        && !(1 <= self.id <= old(store).albums().len()))
                    &&& (e == StoreError::DuplicateToken ==> old(store).images().len() > 0)
                    &&& final(store).images() == old(store).images()
                },
            },
    {
        Image::new(store, self.id, url, index)
    }

    /// This album's rows, in table order.
    pub fn select_images(&self, store: &Store) -> (r: Vec<Image>)
        ensures
            r@ == rows_of(store.images(), self.id),
    {
        store.select_images(self.id)
    }

    /// This album's image URLs, by ascending index.
    pub fn get_image_urls(&self, store: &Store) -> (r: Vec<String>)
        ensures
            string_views(r@) == urls_of(sorted_by_index(rows_of(store.images(), self.id))),
    {
        store.image_urls_ordered(self.id)
    }

    /// Moves every image of this album whose index is at least `start` one place up.
    pub fn increase_index(&self, store: &mut Store, start: i32) -> (r: Result<(), StoreError>)
        requires
            old(store).wf(),
        ensures
            final(store).wf(),
            final(store).albums() == old(store).albums(),
            match r {
                Ok(()) => {
                    &&& !Store::shift_overflows(old(store).images(), self.id, start)
                    &&& final(store).images() == shift_table(old(store).images(), self.id, start)
                },
                Err(e) => {
                    &&& e == StoreError::IndexOverflow
                    &&& Store::shift_overflows(old(store).images(), self.id, start)
                    &&& final(store).images() == old(store).images()
                },
            },
    {
        store.shift_indices(self.id, start)
    }

    /// Inserts an image at `index`: where the album has more images than `index`, every image
    /// at `index` or beyond first moves one place up, in the same step as the insert.
    pub fn insert_image_at(&self, store: &mut Store, url: &str, index: u16) -> (r: Result<Image, StoreError>)
        requires
            old(store).wf(),
        ensures
            final(store).wf(),
            final(store).albums() == old(store).albums(),
            match r {
                Ok(image) => {
                    let before = rows_of(old(store).images(), self.id);
                    let after = rows_of(final(store).images(), self.id);
                    &&& image.id == old(store).images().len() + 1
                    &&& image.album_id == self.id
                    &&& image.url@ == url@
                    &&& image.index == index as i32
                    &&& after.len() == before.len() + 1
                    &&& before.len() > index ==> !Store::shift_overflows(old(store).images(), self.id, index as i32)
                    &&& after == if before.len() > index {
                        shift_table(before, self.id, index as i32).push(image)
                    } else {
                        before.push(image)
                    }
                    &&& final(store).images() == if before.len() > index {
                        shift_table(old(store).images(), self.id, index as i32).push(image)
                    } else {
                        old(store).images().push(image)
                    }
                },
                Err(e) => {
                    &&& e == StoreError::Full || e == StoreError::UnknownAlbum || e == StoreError::DuplicateToken
                        || e == StoreError::IndexOverflow
                    &&& (e == StoreError::Full <==> old(store).images().len() >= i32::MAX)
                    &&& (e == StoreError::UnknownAlbum <==> old(store).images().len() < i32::MAX
                        && !(1 <= self.id <= old(store).albums().len()))
                    &&& (e == StoreError::IndexOverflow <==> old(store).images().len() < i32::MAX
                        && 1 <= self.id <= old(store).albums().len()
                        && rows_of(old(store).images(), self.id).len() > index
                        && Store::shift_overflows(old(store).images(), self.id, index as i32))
                    &&& (e == StoreError::DuplicateToken ==> old(store).images().len() > 0)
                    &&& final(store).images() == old(store).images()
                },
            },
    {
        let count = store.image_count(self.id);
        let shift = count > index as usize;
        let r = Image::write(store, self.id, url, index as i32, shift);
        proof {
            if r is Ok {
                let image = r->Ok_0;
                let images = old(store).images();
                if shift {
                    lemma_rows_shift(images, self.id, index as i32);
                    lemma_rows_push(shift_table(images, self.id, index as i32), image, self.id);
                } else {
                    lemma_rows_push(images, image, self.id);
                }
            }
        }
        r
    }

    /// Number of images of this album.
    pub fn image_count(&self, store: &Store) -> (r: usize)
        ensures
            r == rows_of(store.images(), self.id).len(),
    {
        store.image_count(self.id)
    }
}

impl Image {
    /// Inserts an image row with a fresh token pair, drawn again on a collision up to
    /// `TOKEN_ATTEMPTS` times in all.
    pub fn new(store: &mut Store, album_id: i32, url: &str, index: i32) -> (r: Result<Image, StoreError>)
        requires
            old(store).wf(),
        ensures
            final(store).wf(),
            final(store).albums() == old(store).albums(),
            match r {
                Ok(image) => {
                    &&& image.id == old(store).images().len() + 1
                    &&& image.album_id == album_id
                    &&& image.url@ == url@
                    &&& image.index == index
                    &&& final(store).images() == old(store).images().push(image)
                },
                Err(e) => {
                    &&& e == StoreError::Full || e == StoreError::UnknownAlbum || e == StoreError::DuplicateToken
                    &&& (e == StoreError::Full <==> old(store).images().len() >= i32::MAX)
                    &&& (e == StoreError::UnknownAlbum <==> old(store).images().len() < i32::MAX
                        && !(1 <= album_id <= old(store).albums().len()))
                    &&& (e == StoreError::DuplicateToken ==> old(store).images().len() > 0)
                    &&& final(store).images() == old(store).images()
                },
            },
    {
        Image::write(store, album_id, url, index, false)
    }

    /// Inserts an image row with a fresh token pair, first shifting the album's rows at `index`
    /// or beyond where `shift` is set; see `Store::insert_image`.
    fn write(store: &mut Store, album_id: i32, url: &str, index: i32, shift: bool) -> (r: Result<Image, StoreError>)
        requires
            old(store).wf(),
        ensures
            final(store).wf(),
            final(store).albums() == old(store).albums(),
            match r {
                Ok(image) => {
                    &&& image.id == old(store).images().len() + 1
                    &&& image.album_id == album_id
                    &&& image.url@ == url@
                    &&& image.index == index
                    &&& !(shift && Store::shift_overflows(old(store).images(), album_id, index))
                    &&& final(store).images() == if shift {
                        shift_table(old(store).images(), album_id, index).push(image)
                    } else {
                        old(store).images().push(image)
                    }
                },
                Err(e) => {
                    &&& e == StoreError::Full || e == StoreError::UnknownAlbum || e == StoreError::DuplicateToken
                        || e == StoreError::IndexOverflow
                    &&& (e == StoreError::Full <==> old(store).images().len() >= i32::MAX)
                    &&& (e == StoreError::UnknownAlbum <==> old(store).images().len() < i32::MAX
                        && !(1 <= album_id <= old(store).albums().len()))
                    &&& (e == StoreError::IndexOverflow <==> old(store).images().len() < i32::MAX
                        && 1 <= album_id <= old(store).albums().len()
                        && shift && Store::shift_overflows(old(store).images(), album_id, index))
                    &&& (e == StoreError::DuplicateToken ==> old(store).images().len() > 0)
                    &&& final(store).images() == old(store).images()
                },
            },
    {
        if store.image_total() >= i32::MAX as usize {
            return Err(StoreError::Full);
        }
        if album_id < 1 || album_id as usize > store.album_total() {
            return Err(StoreError::UnknownAlbum);
        }
        if shift && store.shift_would_overflow(album_id, index) {
            return Err(StoreError::IndexOverflow);
        }
        let ghost start = *store;
        let mut attempt: usize = 0;
        while attempt < TOKEN_ATTEMPTS
            invariant
                store.wf(),
                store.albums() == start.albums(),
                store.images() == start.images(),
                start == *old(store),
                start.images().len() < i32::MAX,
                1 <= album_id <= start.albums().len(),
                !(shift && Store::shift_overflows(start.images(), album_id, index)),
                attempt > 0 ==> start.images().len() > 0,
            decreases TOKEN_ATTEMPTS - attempt,
        {
            let (token, deletion_token) = generate_token_pair();
            let new = NewImage { album_id, token, deletion_token, url: url.to_owned(), index };
            match store.insert_image(&new, shift) {
                Ok(image) => {
                    return Ok(image);
                },
                Err(StoreError::DuplicateToken) => {},
                Err(e) => {
                    return Err(e);
                },
            }
            attempt = attempt + 1;
        }
        Err(StoreError::DuplicateToken)
    }

    /// The image whose public token is `token`, if any.
    pub fn by_token(store: &Store, token: &str) -> (r: Option<Image>)
        ensures
            match r {
                Some(im) => store.images().contains(im) && im.token@ == token@,
                None => forall|i: int|
                    0 <= i < store.images().len() ==> (#[trigger] store.images()[i]).token@ != token@,
            },
    {
        store.image_by_token(token)
    }

    /// The image whose deletion token is `token`, if any.
    pub fn by_deletion_token(store: &Store, token: &str) -> (r: Option<Image>)
        ensures
            match r {
                Some(im) => store.images().contains(im) && im.deletion_token@ == token@,
                None => forall|i: int|
                    0 <= i < store.images().len() ==> (#[trigger] store.images()[i]).deletion_token@
                        != token@,
            },
    {
        store.image_by_deletion_token(token)
    }
}

} // verus!
