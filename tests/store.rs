use std::collections::HashSet;
use v_albums::models::{Album, Image, NewAlbum, NewImage};
use v_albums::store::{Store, StoreError};
use v_albums::token::generate_token_pair;

fn is_token_char(c: char) -> bool {
    c.is_ascii_alphanumeric()
}

#[test]
fn token_pairs_have_their_shapes() {
    for _ in 0..200 {
        let (public, deletion) = generate_token_pair();
        assert_eq!(public.chars().count(), 8);
        assert_eq!(deletion.chars().count(), 16);
        assert!(public.chars().all(is_token_char));
        assert!(deletion.chars().all(is_token_char));
        let distinct: HashSet<char> = deletion.chars().collect();
        assert_eq!(distinct.len(), 16);
    }
}

#[test]
fn many_albums_have_distinct_tokens() {
    let mut store = Store::new();
    let mut public = HashSet::new();
    let mut secret = HashSet::new();
    for i in 0..500 {
        let album = Album::new(&mut store, Some("t")).unwrap();
        assert_eq!(album.id, i + 1);
        assert!(public.insert(album.token.clone()));
        assert!(secret.insert(album.deletion_token.clone()));
    }
    assert_eq!(store.album_total(), 500);
}

#[test]
fn lookups_by_token() {
    let mut store = Store::new();
    let album = Album::new(&mut store, None).unwrap();
    let found = Album::by_token(&store, &album.token).unwrap();
    assert_eq!(found.id, album.id);
    let found = Album::by_deletion_token(&store, &album.deletion_token).unwrap();
    assert_eq!(found.id, album.id);
    assert!(Album::by_token(&store, &album.deletion_token).is_none());
    let image = album.add_image(&mut store, "https://i.imgur.com/a.png", 0).unwrap();
    assert_eq!(Image::by_token(&store, &image.token).unwrap().id, image.id);
    assert_eq!(Image::by_deletion_token(&store, &image.deletion_token).unwrap().id, image.id);
    assert!(Image::by_token(&store, "nothing!").is_none());
}

#[test]
fn insert_image_at_shifts_later_images() {
    let mut store = Store::new();
    let album = Album::new(&mut store, None).unwrap();
    for (i, url) in ["a", "b", "c"].iter().enumerate() {
        album.add_image(&mut store, url, i as i32).unwrap();
    }
    let image = album.insert_image_at(&mut store, "x", 1).unwrap();
    assert_eq!(image.index, 1);
    assert_eq!(album.image_count(&store), 4);
    let indices: Vec<(String, i32)> =
        album.select_images(&store).into_iter().map(|im| (im.url, im.index)).collect();
    assert_eq!(
        indices,
        vec![
            ("a".to_string(), 0),
            ("b".to_string(), 2),
            ("c".to_string(), 3),
            ("x".to_string(), 1)
        ]
    );
    assert_eq!(album.get_image_urls(&store), vec!["a", "x", "b", "c"]);
}

#[test]
fn insert_image_at_past_the_end_does_not_shift() {
    let mut store = Store::new();
    let album = Album::new(&mut store, None).unwrap();
    album.add_image(&mut store, "a", 0).unwrap();
    album.insert_image_at(&mut store, "z", 5).unwrap();
    assert_eq!(album.get_image_urls(&store), vec!["a", "z"]);
    let indices: Vec<i32> = album.select_images(&store).iter().map(|im| im.index).collect();
    assert_eq!(indices, vec![0, 5]);
}

#[test]
fn images_of_other_albums_stay() {
    let mut store = Store::new();
    let first = Album::new(&mut store, None).unwrap();
    let second = Album::new(&mut store, None).unwrap();
    first.add_image(&mut store, "f0", 0).unwrap();
    second.add_image(&mut store, "s0", 0).unwrap();
    first.insert_image_at(&mut store, "f-new", 0).unwrap();
    assert_eq!(second.get_image_urls(&store), vec!["s0"]);
    assert_eq!(first.get_image_urls(&store), vec!["f-new", "f0"]);
}

#[test]
fn increase_index_and_overflow() {
    let mut store = Store::new();
    let album = Album::new(&mut store, None).unwrap();
    album.add_image(&mut store, "a", 3).unwrap();
    album.increase_index(&mut store, 3).unwrap();
    assert_eq!(album.select_images(&store)[0].index, 4);
    album.add_image(&mut store, "top", i32::MAX).unwrap();
    assert_eq!(album.increase_index(&mut store, 0), Err(StoreError::IndexOverflow));
    assert_eq!(album.select_images(&store)[0].index, 4);
}

#[test]
fn store_refuses_bad_rows() {
    let mut store = Store::new();
    let bad = NewAlbum { token: "short".to_string(), deletion_token: "x".repeat(16), title: None };
    assert_eq!(store.insert_album(&bad).unwrap_err(), StoreError::InvalidToken);
    let good = NewAlbum {
        token: "abcdefgh".to_string(),
        deletion_token: "ABCDEFGHIJKLMNOP".to_string(),
        title: Some("t".to_string()),
    };
    let album = store.insert_album(&good).unwrap();
    assert_eq!(album.id, 1);
    assert_eq!(store.insert_album(&good).unwrap_err(), StoreError::DuplicateToken);
    let orphan = NewImage {
        album_id: 7,
        token: "abcdefgh".to_string(),
        deletion_token: "ABCDEFGHIJKLMNOP".to_string(),
        url: "u".to_string(),
        index: 0,
    };
    assert_eq!(store.insert_image(&orphan, false).unwrap_err(), StoreError::UnknownAlbum);
    assert_eq!(Image::new(&mut store, 7, "u", 0).unwrap_err(), StoreError::UnknownAlbum);
    assert_eq!(store.image_total(), 0);
}
