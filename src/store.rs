use crate::models::{Album, Image, NewAlbum, NewImage};
use crate::token::{
    is_deletion_token, is_public_token, is_token_char, DELETION_TOKEN_LEN, PUBLIC_TOKEN_LEN,
};
use vstd::prelude::*;

verus! {

/// Why the store refused a write.
#[derive(Debug, Clone, Copy, PartialEq, Eq, Structural)]
pub enum StoreError {
    /// A token does not have the shape of its role (length, alphabet).
    InvalidToken,
    /// A token is already held by another row of the same table.
    DuplicateToken,
    /// An image refers to an album that does not exist.
    UnknownAlbum,
    /// No identifier is left for a new row.
    Full,
    /// Shifting the indices would push one past the largest index.
    IndexOverflow,
}

/// The two tables of the service: albums and their images, in insertion order.
pub struct Store {
    albums: Vec<Album>,
    images: Vec<Image>,
}

/// All rows of `images` that belong to the album `album_id`, in table order.
pub open spec fn rows_of(images: Seq<Image>, album_id: i32) -> Seq<Image>
    decreases images.len(),
{
    if images.len() == 0 {
        Seq::empty()
    } else {
        let prev = rows_of(images.drop_last(), album_id);
        if images.last().album_id == album_id {
            prev.push(images.last())
        } else {
            prev
        }
    }
}

/// The row as the update `index = index + 1 WHERE album_id = .. AND index >= start` leaves it.
pub open spec fn shifted(image: Image, album_id: i32, start: i32) -> Image {
    if image.album_id == album_id && image.index >= start {
        Image { index: (image.index + 1) as i32, ..image }
    } else {
        image
    }
}

/// Every row of `images` as the shift of `album_id` from `start` leaves it.
pub open spec fn shift_table(images: Seq<Image>, album_id: i32, start: i32) -> Seq<Image> {
    images.map_values(|im: Image| shifted(im, album_id, start))
}

/// Position at which an image with index `k` goes into `s`: after every row whose index is at
/// most `k`.
pub open spec fn insert_pos(s: Seq<Image>, k: i32) -> int
    decreases s.len(),
{
    if s.len() == 0 {
        0
    } else if s[0].index > k {
        0
    } else {
        1 + insert_pos(s.drop_first(), k)
    }
}

/// `s` sorted by ascending index; rows with equal indices keep their table order.
pub open spec fn sorted_by_index(s: Seq<Image>) -> Seq<Image>
    decreases s.len(),
{
    if s.len() == 0 {
        s
    } else {
        let prev = sorted_by_index(s.drop_last());
        prev.insert(insert_pos(prev, s.last().index), s.last())
    }
}

/// Whether the album row `a` holds one of the tokens of `new`.
pub open spec fn album_clash(a: Album, new: NewAlbum) -> bool {
    a.token@ == new.token@ || a.deletion_token@ == new.deletion_token@
}

/// Whether the image row `im` holds one of the tokens of `new`.
pub open spec fn image_clash(im: Image, new: NewImage) -> bool {
    im.token@ == new.token@ || im.deletion_token@ == new.deletion_token@
}

/// The invariant of the tables: identifiers are the row numbers counted from one, every
/// token has the shape of its role and is held by one row of its table only, and every
/// image belongs to an existing album.
pub open spec fn tables_wf(albums: Seq<Album>, images: Seq<Image>) -> bool {
    &&& forall|i: int| 0 <= i < albums.len() ==> (#[trigger] albums[i]).id == i + 1
    &&& forall|i: int|
        0 <= i < albums.len() ==> is_public_token((#[trigger] albums[i]).token@)
            && is_deletion_token(albums[i].deletion_token@)
    &&& forall|i: int, j: int|
        0 <= i < albums.len() && 0 <= j < albums.len() && i != j ==> albums_distinct(
            #[trigger] albums[i],
            #[trigger] albums[j],
        )
    &&& forall|i: int| 0 <= i < images.len() ==> (#[trigger] images[i]).id == i + 1
    &&& forall|i: int|
        0 <= i < images.len() ==> 1 <= (#[trigger] images[i]).album_id <= albums.len()
    &&& forall|i: int|
        0 <= i < images.len() ==> is_public_token((#[trigger] images[i]).token@)
            && is_deletion_token(images[i].deletion_token@)
    &&& forall|i: int, j: int|
        0 <= i < images.len() && 0 <= j < images.len() && i != j ==> images_distinct(
            #[trigger] images[i],
            #[trigger] images[j],
        )
}

/// Two distinct album rows never share a token of the same role.
pub open spec fn albums_distinct(a: Album, b: Album) -> bool {
    a.token@ != b.token@ && a.deletion_token@ != b.deletion_token@
}

/// Two distinct image rows never share a token of the same role.
pub open spec fn images_distinct(a: Image, b: Image) -> bool {
    a.token@ != b.token@ && a.deletion_token@ != b.deletion_token@
}

/// The URLs of the rows, in the same order.
pub open spec fn urls_of(s: Seq<Image>) -> Seq<Seq<char>> {
    s.map_values(|im: Image| im.url@)
}

/// The views of a list of strings.
pub open spec fn string_views(s: Seq<String>) -> Seq<Seq<char>> {
    s.map_values(|t: String| t@)
}

impl Store {
    /// The album rows, by identifier.
    pub closed spec fn albums(&self) -> Seq<Album> {
        self.albums@
    }

    /// The image rows, by identifier.
    pub closed spec fn images(&self) -> Seq<Image> {
        self.images@
    }

    /// The invariant of the tables; see `tables_wf`.
    pub open spec fn wf(&self) -> bool {
        tables_wf(self.albums(), self.images())
    }

    /// The error with which inserting `new` into `albums` fails, if any.
    pub open spec fn album_insert_error(albums: Seq<Album>, new: NewAlbum) -> Option<StoreError> {
        if albums.len() >= i32::MAX {
            Some(StoreError::Full)
        } else if !is_public_token(new.token@) || !is_deletion_token(new.deletion_token@) {
            Some(StoreError::InvalidToken)
        } else if exists|i: int|
            0 <= i < albums.len() && album_clash(#[trigger] albums[i], new) {
            Some(StoreError::DuplicateToken)
        } else {
            None
        }
    }

    /// The error with which inserting `new` (after the shift, if any) fails, if any.
    pub open spec fn image_insert_error(
        albums: Seq<Album>,
        images: Seq<Image>,
        new: NewImage,
    ) -> Option<StoreError> {
        if images.len() >= i32::MAX {
            Some(StoreError::Full)
        } else if !(1 <= new.album_id <= albums.len()) {
            Some(StoreError::UnknownAlbum)
        } else if !is_public_token(new.token@) || !is_deletion_token(new.deletion_token@) {
            Some(StoreError::InvalidToken)
        } else if exists|i: int|
            0 <= i < images.len() && image_clash(#[trigger] images[i], new) {
            Some(StoreError::DuplicateToken)
        } else {
            None
        }
    }

    /// Whether shifting the rows of `album_id` from `start` on would overflow an index.
    pub open spec fn shift_overflows(images: Seq<Image>, album_id: i32, start: i32) -> bool {
        exists|i: int|
            0 <= i < images.len() && (#[trigger] images[i]).album_id == album_id
                && images[i].index >= start && images[i].index == i32::MAX
    }

    /// An empty store.
    pub fn new() -> (r: Store)
        ensures
            r.wf(),
            r.albums().len() == 0,
            r.images().len() == 0,
    {
        Store { albums: Vec::new(), images: Vec::new() }
    }

    /// Number of albums.
    pub fn album_total(&self) -> (r: usize)
        ensures
            r == self.albums().len(),
    {
        self.albums.len()
    }

    /// Number of images, over all albums.
    pub fn image_total(&self) -> (r: usize)
        ensures
            r == self.images().len(),
    {
        self.images.len()
    }

    /// Inserts a new album row, as `INSERT INTO albums` with unique token columns does.
    pub fn insert_album(&mut self, new: &NewAlbum) -> (r: Result<Album, StoreError>)
        requires
            old(self).wf(),
        ensures
            final(self).wf(),
            final(self).images() == old(self).images(),
            match r {
                Ok(album) => {
                    &&& Self::album_insert_error(old(self).albums(), *new) is None
                    &&& album.id == old(self).albums().len() + 1
                    &&& album.token@ == new.token@
                    &&& album.deletion_token@ == new.deletion_token@
                    &&& album.title == new.title
                    &&& final(self).albums() == old(self).albums().push(album)
                },
                Err(e) => {
                    &&& Self::album_insert_error(old(self).albums(), *new) == Some(e)
                    &&& final(self).albums() == old(self).albums()
                },
            },
    {
        if self.albums.len() >= i32::MAX as usize {
            return Err(StoreError::Full);
        }
        if !has_token_shape(&new.token, PUBLIC_TOKEN_LEN) || !has_token_shape(
            &new.deletion_token,
            DELETION_TOKEN_LEN,
        ) {
            return Err(StoreError::InvalidToken);
        }
        if album_token_taken(&self.albums, new) {
            return Err(StoreError::DuplicateToken);
        }
        let album = Album {
            id: (self.albums.len() + 1) as i32,
            token: new.token.clone(),
            deletion_token: new.deletion_token.clone(),
            title: clone_title(&new.title),
        };
        let row = copy_album(&album);
        let ghost before = self.albums@;
        self.albums.push(row);
        proof {
            let albums = self.albums@;
            assert forall|a: int, b: int|
                0 <= a < albums.len() && 0 <= b < albums.len() && a != b implies albums_distinct(
                #[trigger] albums[a],
                #[trigger] albums[b],
            ) by {
                if a < before.len() && b < before.len() {
                    assert(albums[a] == before[a] && albums[b] == before[b]);
                } else if a < before.len() {
                    assert(albums[a] == before[a]);
                    assert(!album_clash(before[a], *new));
                } else {
                    assert(albums[b] == before[b]);
                    assert(!album_clash(before[b], *new));
                }
            }
            assert(forall|i: int| 0 <= i < albums.len() ==> (#[trigger] albums[i]).id == i + 1);
            assert(forall|i: int|
                0 <= i < albums.len() ==> is_public_token((#[trigger] albums[i]).token@)
                    && is_deletion_token(albums[i].deletion_token@));
            assert(self.images() == old(self).images());
            assert forall|i: int| 0 <= i < self.images@.len() implies 1 <= (
            #[trigger] self.images@[i]).album_id <= albums.len() by {
                assert(old(self).images()[i] == self.images@[i]);
            }
        }
        Ok(album)
    }

    /// The error with which writing `new` fails, the shift included where `shift` is set.
    pub open spec fn image_write_error(
        albums: Seq<Album>,
        images: Seq<Image>,
        new: NewImage,
        shift: bool,
    ) -> Option<StoreError> {
        match Self::image_insert_error(albums, images, new) {
            Some(e) => Some(e),
            None => if shift && Self::shift_overflows(images, new.album_id, new.index) {
                Some(StoreError::IndexOverflow)
            } else {
                None
            },
        }
    }

    /// The image table after a successful write of `new` as the row with identifier `id`.
    pub open spec fn images_after_write(images: Seq<Image>, new: NewImage, shift: bool, row: Image) -> Seq<Image> {
        if shift {
            shift_table(images, new.album_id, new.index).push(row)
        } else {
            images.push(row)
        }
    }

    /// Writes the image row `new`. Where `shift` is set, every row of the same album whose
    /// index is at least `new.index` first moves one place up; the shift and the insert happen
    /// together or not at all.
    pub fn insert_image(&mut self, new: &NewImage, shift: bool) -> (r: Result<Image, StoreError>)
        requires
            old(self).wf(),
        ensures
            final(self).wf(),
            final(self).albums() == old(self).albums(),
            match r {
                Ok(image) => {
                    &&& Self::image_write_error(old(self).albums(), old(self).images(), *new, shift) is None
                    &&& image == new_image_row(old(self).images().len() as int + 1, *new)
                    &&& final(self).images() == Self::images_after_write(old(self).images(), *new, shift, image)
                },
                Err(e) => {
                    &&& Self::image_write_error(old(self).albums(), old(self).images(), *new, shift) == Some(e)
                    &&& final(self).images() == old(self).images()
                },
            },
    {
        if self.images.len() >= i32::MAX as usize {
            return Err(StoreError::Full);
        }
        if new.album_id < 1 || new.album_id as usize > self.albums.len() {
            return Err(StoreError::UnknownAlbum);
        }
        if !has_token_shape(&new.token, PUBLIC_TOKEN_LEN) || !has_token_shape(
            &new.deletion_token,
            DELETION_TOKEN_LEN,
        ) {
            return Err(StoreError::InvalidToken);
        }
        if image_token_taken(&self.images, new) {
            return Err(StoreError::DuplicateToken);
        }
        if shift && shift_would_overflow(&self.images, new.album_id, new.index) {
            return Err(StoreError::IndexOverflow);
        }
        let image = Image {
            id: (self.images.len() + 1) as i32,
            album_id: new.album_id,
            token: new.token.clone(),
            deletion_token: new.deletion_token.clone(),
            url: new.url.clone(),
            index: new.index,
        };
        let ghost before = self.images@;
        let mut rows = if shift {
            shift_rows(&self.images, new.album_id, new.index)
        } else {
            copy_rows(&self.images)
        };
        proof {
            assert forall|i: int| 0 <= i < rows@.len() implies #[trigger] rows@[i].id == before[i].id
                && rows@[i].album_id == before[i].album_id && rows@[i].token == before[i].token
                && rows@[i].deletion_token == before[i].deletion_token by {
                if shift {
                    assert(rows@[i] == shifted(before[i], new.album_id, new.index));
                }
            }
        }
        rows.push(copy_image(&image));
        self.images = rows;
        proof {
            let images = self.images@;
            assert(images.subrange(0, before.len() as int).len() == before.len());
            assert forall|a: int, b: int|
                0 <= a < images.len() && 0 <= b < images.len() && a != b implies images_distinct(
                #[trigger] images[a],
                #[trigger] images[b],
            ) by {
                if a < before.len() && b < before.len() {
                    assert(images_distinct(before[a], before[b]));
                } else if a < before.len() {
                    assert(!image_clash(before[a], *new));
                } else {
                    assert(!image_clash(before[b], *new));
                }
            }
            assert forall|i: int| 0 <= i < images.len() implies (#[trigger] images[i]).id == i + 1
                && 1 <= images[i].album_id <= self.albums@.len()
                && is_public_token(images[i].token@) && is_deletion_token(images[i].deletion_token@) by {
                if i < before.len() {
                    assert(images[i].id == before[i].id);
                }
            }
            if shift {
                assert(images =~= shift_table(before, new.album_id, new.index).push(image));
            } else {
                assert(images =~= before.push(image));
            }
        }
        Ok(image)
    }

    /// Moves every row of `album_id` whose index is at least `start` one place up, as
    /// `UPDATE images SET index = index + 1` does; nothing moves where an index would overflow.
    pub fn shift_indices(&mut self, album_id: i32, start: i32) -> (r: Result<(), StoreError>)
        requires
            old(self).wf(),
        ensures
            final(self).wf(),
            final(self).albums() == old(self).albums(),
            match r {
                Ok(()) => {
                    &&& !Self::shift_overflows(old(self).images(), album_id, start)
                    &&& final(self).images() == shift_table(old(self).images(), album_id, start)
                },
                Err(e) => {
                    &&& e == StoreError::IndexOverflow
                    &&& Self::shift_overflows(old(self).images(), album_id, start)
                    &&& final(self).images() == old(self).images()
                },
            },
    {
        if shift_would_overflow(&self.images, album_id, start) {
            return Err(StoreError::IndexOverflow);
        }
        let ghost before = self.images@;
        let rows = shift_rows(&self.images, album_id, start);
        self.images = rows;
        proof {
            let images = self.images@;
            assert(before == old(self).images());
            assert(self.albums@ == old(self).albums());
            assert(images.len() == before.len());
            assert forall|i: int| 0 <= i < images.len() implies #[trigger] images[i].id == before[i].id
                && images[i].album_id == before[i].album_id && images[i].token == before[i].token
                && images[i].deletion_token == before[i].deletion_token by {
                assert(images[i] == shifted(before[i], album_id, start));
            }
            assert forall|a: int, b: int|
                0 <= a < images.len() && 0 <= b < images.len() && a != b implies images_distinct(
                #[trigger] images[a],
                #[trigger] images[b],
            ) by {
                assert(images_distinct(before[a], before[b]));
            }
            assert forall|i: int| 0 <= i < images.len() implies (#[trigger] images[i]).id == i + 1
                && 1 <= images[i].album_id <= self.albums@.len()
                && is_public_token(images[i].token@) && is_deletion_token(images[i].deletion_token@) by {
                assert(images[i].id == before[i].id);
            }
        }
        Ok(())
    }

    /// Whether shifting the rows of `album_id` from `start` on would overflow an index.
    pub fn shift_would_overflow(&self, album_id: i32, start: i32) -> (r: bool)
        ensures
            r == Self::shift_overflows(self.images(), album_id, start),
    {
        shift_would_overflow(&self.images, album_id, start)
    }

    /// Drops every album row after the first `albums` and every image row after the first
    /// `images`, where what is left satisfies the invariant.
    pub(crate) fn rollback(&mut self, albums: usize, images: usize)
        requires
            albums <= old(self).albums().len(),
            images <= old(self).images().len(),
            tables_wf(
                old(self).albums().subrange(0, albums as int),
                old(self).images().subrange(0, images as int),
            ),
        ensures
            final(self).wf(),
            final(self).albums() == old(self).albums().subrange(0, albums as int),
            final(self).images() == old(self).images().subrange(0, images as int),
    {
        self.albums.truncate(albums);
        self.images.truncate(images);
    }

    /// The album whose public token is `token`, if any.
    pub fn album_by_token(&self, token: &str) -> (r: Option<Album>)
        ensures
            match r {
                Some(a) => self.albums().contains(a) && a.token@ == token@,
                None => forall|i: int| 0 <= i < self.albums().len() ==> (#[trigger] self.albums()[i]).token@ != token@,
            },
    {
        let wanted = token.to_owned();
        let mut i: usize = 0;
        while i < self.albums.len()
            invariant
                i <= self.albums@.len(),
                wanted@ == token@,
                forall|j: int| 0 <= j < i ==> (#[trigger] self.albums@[j]).token@ != token@,
            decreases self.albums@.len() - i,
        {
            if self.albums[i].token == wanted {
                return Some(copy_album(&self.albums[i]));
            }
            i = i + 1;
        }
        None
    }

    /// The album whose deletion token is `token`, if any.
    pub fn album_by_deletion_token(&self, token: &str) -> (r: Option<Album>)
        ensures
            match r {
                Some(a) => self.albums().contains(a) && a.deletion_token@ == token@,
                None => forall|i: int| 0 <= i < self.albums().len() ==> (#[trigger] self.albums()[i]).deletion_token@ != token@,
            },
    {
        let wanted = token.to_owned();
        let mut i: usize = 0;
        while i < self.albums.len()
            invariant
                i <= self.albums@.len(),
                wanted@ == token@,
                forall|j: int| 0 <= j < i ==> (#[trigger] self.albums@[j]).deletion_token@ != token@,
            decreases self.albums@.len() - i,
        {
            if self.albums[i].deletion_token == wanted {
                return Some(copy_album(&self.albums[i]));
            }
            i = i + 1;
        }
        None
    }

    /// The image whose public token is `token`, if any.
    pub fn image_by_token(&self, token: &str) -> (r: Option<Image>)
        ensures
            match r {
                Some(im) => self.images().contains(im) && im.token@ == token@,
                None => forall|i: int| 0 <= i < self.images().len() ==> (#[trigger] self.images()[i]).token@ != token@,
            },
    {
        let wanted = token.to_owned();
        let mut i: usize = 0;
        while i < self.images.len()
            invariant
                i <= self.images@.len(),
                wanted@ == token@,
                forall|j: int| 0 <= j < i ==> (#[trigger] self.images@[j]).token@ != token@,
            decreases self.images@.len() - i,
        {
            if self.images[i].token == wanted {
                return Some(copy_image(&self.images[i]));
            }
            i = i + 1;
        }
        None
    }

    /// The image whose deletion token is `token`, if any.
    pub fn image_by_deletion_token(&self, token: &str) -> (r: Option<Image>)
        ensures
            match r {
                Some(im) => self.images().contains(im) && im.deletion_token@ == token@,
                None => forall|i: int| 0 <= i < self.images().len() ==> (#[trigger] self.images()[i]).deletion_token@ != token@,
            },
    {
        let wanted = token.to_owned();
        let mut i: usize = 0;
        while i < self.images.len()
            invariant
                i <= self.images@.len(),
                wanted@ == token@,
                forall|j: int| 0 <= j < i ==> (#[trigger] self.images@[j]).deletion_token@ != token@,
            decreases self.images@.len() - i,
        {
            if self.images[i].deletion_token == wanted {
                return Some(copy_image(&self.images[i]));
            }
            i = i + 1;
        }
        None
    }

    /// The rows of the album `album_id`, in table order.
    pub fn select_images(&self, album_id: i32) -> (r: Vec<Image>)
        ensures
            r@ == rows_of(self.images(), album_id),
    {
        let mut r: Vec<Image> = Vec::new();
        let mut j: usize = 0;
        while j < self.images.len()
            invariant
                j <= self.images@.len(),
                r@ == rows_of(self.images@.subrange(0, j as int), album_id),
            decreases self.images@.len() - j,
        {
            proof {
                assert(self.images@.subrange(0, j + 1).drop_last() =~= self.images@.subrange(0, j as int));
            }
            if self.images[j].album_id == album_id {
                r.push(copy_image(&self.images[j]));
            }
            j = j + 1;
        }
        assert(self.images@.subrange(0, self.images@.len() as int) =~= self.images@);
        r
    }

    /// Number of rows of the album `album_id`.
    pub fn image_count(&self, album_id: i32) -> (r: usize)
        ensures
            r == rows_of(self.images(), album_id).len(),
    {
        self.select_images(album_id).len()
    }

    /// The URLs of the album `album_id`, by ascending index.
    pub fn image_urls_ordered(&self, album_id: i32) -> (r: Vec<String>)
        ensures
            string_views(r@) == urls_of(sorted_by_index(rows_of(self.images(), album_id))),
    {
        let rows = self.select_images(album_id);
        let sorted = sort_rows(&rows);
        let mut r: Vec<String> = Vec::new();
        let mut i: usize = 0;
        while i < sorted.len()
            invariant
                i <= sorted@.len(),
                r@.len() == i,
                forall|j: int| 0 <= j < i ==> (#[trigger] r@[j])@ == sorted@[j].url@,
            decreases sorted@.len() - i,
        {
            r.push(sorted[i].url.clone());
            i = i + 1;
        }
        assert(string_views(r@) =~= urls_of(sorted@));
        r
    }
}

/// In a well-formed store every token has the shape of its role, and no two albums share a
/// public token or a deletion token.
pub proof fn lemma_album_tokens_unique(store: Store, i: int, j: int)
    requires
        store.wf(),
        0 <= i < store.albums().len(),
        0 <= j < store.albums().len(),
        i != j,
    ensures
        is_public_token(store.albums()[i].token@),
        is_deletion_token(store.albums()[i].deletion_token@),
        store.albums()[i].token@ != store.albums()[j].token@,
        store.albums()[i].deletion_token@ != store.albums()[j].deletion_token@,
{
    assert(albums_distinct(store.albums()[i], store.albums()[j]));
}

/// A well-formed store has fewer rows in each table than the largest identifier.
pub proof fn lemma_table_bounds(store: Store)
    requires
        store.wf(),
    ensures
        store.albums().len() <= i32::MAX,
        store.images().len() <= i32::MAX,
{
    if store.albums().len() > 0 {
        assert(store.albums()[store.albums().len() - 1].id == store.albums().len());
    }
    if store.images().len() > 0 {
        assert(store.images()[store.images().len() - 1].id == store.images().len());
    }
}

/// In a well-formed store a public token names at most one album.
pub proof fn lemma_album_token_names_one(store: Store, a: Album, b: Album)
    requires
        store.wf(),
        store.albums().contains(a),
        store.albums().contains(b),
        a.token@ == b.token@,
    ensures
        a == b,
{
    let i = choose|i: int| 0 <= i < store.albums().len() && store.albums()[i] == a;
    let j = choose|j: int| 0 <= j < store.albums().len() && store.albums()[j] == b;
    if i != j {
        assert(albums_distinct(store.albums()[i], store.albums()[j]));
    }
}

/// Every album of a well-formed store has tokens of the shape of their roles.
pub proof fn lemma_album_tokens_shaped(store: Store, a: Album)
    requires
        store.wf(),
        store.albums().contains(a),
    ensures
        is_public_token(a.token@),
        is_deletion_token(a.deletion_token@),
{
    let i = choose|i: int| 0 <= i < store.albums().len() && store.albums()[i] == a;
    assert(store.albums()[i] == a);
}

/// Appending a row adds it to the rows of its own album only.
pub proof fn lemma_rows_push(images: Seq<Image>, row: Image, album_id: i32)
    ensures
        rows_of(images.push(row), album_id) == if row.album_id == album_id {
            rows_of(images, album_id).push(row)
        } else {
            rows_of(images, album_id)
        },
{
    assert(images.push(row).drop_last() =~= images);
}

/// Every row of an album belongs to it and is a row of the table.
pub proof fn lemma_rows_belong(images: Seq<Image>, album_id: i32)
    ensures
        forall|j: int|
            0 <= j < rows_of(images, album_id).len() ==> (#[trigger] rows_of(images, album_id)[j]).album_id
                == album_id && images.contains(rows_of(images, album_id)[j]),
    decreases images.len(),
{
    if images.len() > 0 {
        lemma_rows_belong(images.drop_last(), album_id);
        let prev = rows_of(images.drop_last(), album_id);
        let rows = rows_of(images, album_id);
        assert forall|j: int| 0 <= j < rows.len() implies (#[trigger] rows[j]).album_id == album_id
            && images.contains(rows[j]) by {
            if j < prev.len() {
                assert(rows[j] == prev[j]);
                let i = choose|i: int| 0 <= i < images.drop_last().len() && images.drop_last()[i] == prev[j];
                assert(images[i] == prev[j]);
            } else {
                assert(images[images.len() - 1] == rows[j]);
            }
        }
    }
}

/// After an insert at `k` that shifted the album's rows, the album has one image more, the new
/// one at `k`; every earlier image at `k` or beyond has moved one place up, every other one has
/// kept its index, and none has changed otherwise.
pub proof fn lemma_insert_at_indices(images: Seq<Image>, album_id: i32, k: i32, image: Image)
    requires
        image.index == k,
        !Store::shift_overflows(images, album_id, k),
    ensures
        ({
            let before = rows_of(images, album_id);
            let after = shift_table(before, album_id, k).push(image);
            &&& after.len() == before.len() + 1
            &&& after.last() == image
            &&& forall|j: int|
                0 <= j < before.len() ==> (#[trigger] after[j]).index == if before[j].index >= k {
                    before[j].index + 1
                } else {
                    before[j].index as int
                }
            &&& forall|j: int|
                0 <= j < before.len() ==> (#[trigger] after[j]).id == before[j].id && after[j].url
                    == before[j].url && after[j].album_id == before[j].album_id
        }),
{
    lemma_rows_belong(images, album_id);
    let before = rows_of(images, album_id);
    let after = shift_table(before, album_id, k).push(image);
    assert forall|j: int| 0 <= j < before.len() implies #[trigger] after[j] == shifted(
        before[j],
        album_id,
        k,
    ) by {
        assert(after[j] == shift_table(before, album_id, k)[j]);
        let i = choose|i: int| 0 <= i < images.len() && images[i] == before[j];
        assert(images[i] == before[j]);
    }
}

/// An album that no row refers to has no rows.
pub proof fn lemma_rows_none(images: Seq<Image>, album_id: i32)
    requires
        forall|i: int| 0 <= i < images.len() ==> (#[trigger] images[i]).album_id != album_id,
    ensures
        rows_of(images, album_id) == Seq::<Image>::empty(),
    decreases images.len(),
{
    if images.len() > 0 {
        lemma_rows_none(images.drop_last(), album_id);
    }
}

/// Shifting the table and then taking an album's rows is taking its rows and then shifting
/// them.
pub proof fn lemma_rows_shift(images: Seq<Image>, album_id: i32, start: i32)
    ensures
        rows_of(shift_table(images, album_id, start), album_id) == shift_table(
            rows_of(images, album_id),
            album_id,
            start,
        ),
    decreases images.len(),
{
    if images.len() > 0 {
        let t = shift_table(images, album_id, start);
        assert(t.drop_last() =~= shift_table(images.drop_last(), album_id, start));
        lemma_rows_shift(images.drop_last(), album_id, start);
        let prev = rows_of(images.drop_last(), album_id);
        if images.last().album_id == album_id {
            assert(shift_table(prev.push(images.last()), album_id, start) =~= shift_table(
                prev,
                album_id,
                start,
            ).push(shifted(images.last(), album_id, start)));
        }
    }
}

/// A row whose index is not below any index of `s` goes at the end.
proof fn lemma_insert_pos_end(s: Seq<Image>, k: i32)
    requires
        forall|i: int| 0 <= i < s.len() ==> (#[trigger] s[i]).index <= k,
    ensures
        insert_pos(s, k) == s.len(),
    decreases s.len(),
{
    if s.len() > 0 {
        lemma_insert_pos_end(s.drop_first(), k);
    }
}

/// Rows whose indices already increase are their own order.
pub proof fn lemma_sorted_identity(s: Seq<Image>)
    requires
        forall|i: int, j: int| 0 <= i < j < s.len() ==> s[i].index < s[j].index,
    ensures
        sorted_by_index(s) == s,
    decreases s.len(),
{
    if s.len() > 0 {
        let prev = s.drop_last();
        lemma_sorted_identity(prev);
        lemma_insert_pos_end(prev, s.last().index);
        assert(prev.insert(prev.len() as int, s.last()) =~= s);
    }
}

/// The row that inserting `new` with identifier `id` creates.
pub open spec fn new_image_row(id: int, new: NewImage) -> Image {
    Image {
        id: id as i32,
        album_id: new.album_id,
        token: new.token,
        deletion_token: new.deletion_token,
        url: new.url,
        index: new.index,
    }
}

/// Whether some row of `album_id` at index `start` or beyond already has the largest index.
fn shift_would_overflow(images: &Vec<Image>, album_id: i32, start: i32) -> (r: bool)
    ensures
        r == Store::shift_overflows(images@, album_id, start),
{
    let mut i: usize = 0;
    while i < images.len()
        invariant
            i <= images@.len(),
            forall|j: int|
                0 <= j < i ==> !((#[trigger] images@[j]).album_id == album_id && images@[j].index >= start
                    && images@[j].index == i32::MAX),
        decreases images@.len() - i,
    {
        if images[i].album_id == album_id && images[i].index >= start && images[i].index == i32::MAX {
            return true;
        }
        i = i + 1;
    }
    false
}

/// The rows with those of `album_id` at index `start` or beyond moved one place up.
fn shift_rows(images: &Vec<Image>, album_id: i32, start: i32) -> (r: Vec<Image>)
    requires
        !Store::shift_overflows(images@, album_id, start),
    ensures
        r@ == shift_table(images@, album_id, start),
{
    let mut r: Vec<Image> = Vec::new();
    let mut i: usize = 0;
    while i < images.len()
        invariant
            i <= images@.len(),
            !Store::shift_overflows(images@, album_id, start),
            r@.len() == i,
            forall|j: int| 0 <= j < i ==> #[trigger] r@[j] == shifted(images@[j], album_id, start),
        decreases images@.len() - i,
    {
        let row = copy_image(&images[i]);
        if row.album_id == album_id && row.index >= start {
            assert(row.index != i32::MAX);
            r.push(Image { index: row.index + 1, ..row });
        } else {
            r.push(row);
        }
        i = i + 1;
    }
    assert(r@ =~= shift_table(images@, album_id, start));
    r
}

/// A copy of every row.
fn copy_rows(images: &Vec<Image>) -> (r: Vec<Image>)
    ensures
        r@ == images@,
{
    let mut r: Vec<Image> = Vec::new();
    let mut i: usize = 0;
    while i < images.len()
        invariant
            i <= images@.len(),
            r@ == images@.subrange(0, i as int),
        decreases images@.len() - i,
    {
        r.push(copy_image(&images[i]));
        proof {
            assert(r@ =~= images@.subrange(0, i + 1));
        }
        i = i + 1;
    }
    assert(images@.subrange(0, images@.len() as int) =~= images@);
    r
}

/// The position at which a row with index `k` goes into `s`.
fn find_insert_pos(s: &Vec<Image>, k: i32) -> (p: usize)
    ensures
        p == insert_pos(s@, k),
        p <= s@.len(),
{
    let mut p: usize = 0;
    assert(s@.subrange(0, s@.len() as int) =~= s@);
    while p < s.len() && s[p].index <= k
        invariant
            p <= s@.len(),
            insert_pos(s@, k) == p + insert_pos(s@.subrange(p as int, s@.len() as int), k),
        decreases s@.len() - p,
    {
        assert(s@.subrange(p as int, s@.len() as int).drop_first() =~= s@.subrange(p + 1, s@.len() as int));
        p = p + 1;
    }
    p
}

/// The rows sorted by ascending index, rows with equal indices in their given order.
fn sort_rows(rows: &Vec<Image>) -> (r: Vec<Image>)
    ensures
        r@ == sorted_by_index(rows@),
{
    let mut r: Vec<Image> = Vec::new();
    let mut j: usize = 0;
    assert(rows@.subrange(0, 0) =~= Seq::<Image>::empty());
    while j < rows.len()
        invariant
            j <= rows@.len(),
            r@ == sorted_by_index(rows@.subrange(0, j as int)),
        decreases rows@.len() - j,
    {
        proof {
            assert(rows@.subrange(0, j + 1).drop_last() =~= rows@.subrange(0, j as int));
        }
        let p = find_insert_pos(&r, rows[j].index);
        r.insert(p, copy_image(&rows[j]));
        j = j + 1;
    }
    assert(rows@.subrange(0, rows@.len() as int) =~= rows@);
    r
}

/// Whether an album row already holds one of the tokens of `new`.
fn album_token_taken(albums: &Vec<Album>, new: &NewAlbum) -> (r: bool)
    ensures
        r == exists|i: int|
            0 <= i < albums@.len() && album_clash(#[trigger] albums@[i], *new),
{
    let mut i: usize = 0;
    while i < albums.len()
        invariant
            i <= albums@.len(),
            forall|j: int|
                0 <= j < i ==> !album_clash(#[trigger] albums@[j], *new),
        decreases albums@.len() - i,
    {
        if albums[i].token == new.token || albums[i].deletion_token == new.deletion_token {
            return true;
        }
        i = i + 1;
    }
    false
}

/// Whether an image row already holds one of the tokens of `new`.
fn image_token_taken(images: &Vec<Image>, new: &NewImage) -> (r: bool)
    ensures
        r == exists|i: int|
            0 <= i < images@.len() && image_clash(#[trigger] images@[i], *new),
{
    let mut i: usize = 0;
    while i < images.len()
        invariant
            i <= images@.len(),
            forall|j: int|
                0 <= j < i ==> !image_clash(#[trigger] images@[j], *new),
        decreases images@.len() - i,
    {
        if images[i].token == new.token || images[i].deletion_token == new.deletion_token {
            return true;
        }
        i = i + 1;
    }
    false
}

/// Whether `s` has `len` characters, each from the token alphabet.
fn has_token_shape(s: &String, len: usize) -> (r: bool)
    ensures
        r == (s@.len() == len && forall|i: int| 0 <= i < s@.len() ==> is_token_char(#[trigger] s@[i])),
{
    let t = s.as_str();
    let n = t.unicode_len();
    if n != len {
        return false;
    }
    let mut i: usize = 0;
    while i < n
        invariant
            n == t@.len(),
            t@ == s@,
            i <= n,
            forall|j: int| 0 <= j < i ==> is_token_char(#[trigger] t@[j]),
        decreases n - i,
    {
        let c = t.get_char(i);
        let k = c as u32;
        if !((65 <= k && k <= 90) || (97 <= k && k <= 122) || (48 <= k && k <= 57)) {
            return false;
        }
        i = i + 1;
    }
    true
}

fn clone_title(t: &Option<String>) -> (r: Option<String>)
    ensures
        r == *t,
{
    match t {
        Some(s) => Some(s.clone()),
        None => None,
    }
}

/// A row equal to `a`.
pub fn copy_album(a: &Album) -> (r: Album)
    ensures
        r == *a,
{
    Album {
        id: a.id,
        token: a.token.clone(),
        deletion_token: a.deletion_token.clone(),
        title: clone_title(&a.title),
    }
}

/// A row equal to `im`.
pub fn copy_image(im: &Image) -> (r: Image)
    ensures
        r == *im,
{
    Image {
        id: im.id,
        album_id: im.album_id,
        token: im.token.clone(),
        deletion_token: im.deletion_token.clone(),
        url: im.url.clone(),
        index: im.index,
    }
}

} // verus!
