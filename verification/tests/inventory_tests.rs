use meme_service::models::meme::{Meme, MemeResponse};
use meme_service::services::inventory::{describe, Generation, Listing, ScannedEntry};
use meme_service::utils::error::ScanError;

fn file(name: &str, size: u64) -> ScannedEntry {
    ScannedEntry {
        path: format!("/srv/memes/{}", name),
        filename: name.to_string(),
        is_file: true,
        size_bytes: size,
    }
}

fn dir(name: &str) -> ScannedEntry {
    ScannedEntry {
        path: format!("/srv/memes/{}", name),
        filename: name.to_string(),
        is_file: false,
        size_bytes: 0,
    }
}

#[test]
fn failed_listing_is_an_io_error() {
    assert_eq!(Generation::rebuild(&Listing::Failed).err(), Some(ScanError::Io));
}

#[test]
fn empty_listing_is_rejected() {
    assert_eq!(Generation::rebuild(&Listing::Entries(vec![])).err(), Some(ScanError::Empty));
}

#[test]
fn listing_of_directories_only_is_rejected() {
    let listing = Listing::Entries(vec![dir("a"), dir("b.png")]);
    assert_eq!(Generation::rebuild(&listing).err(), Some(ScanError::Empty));
}

#[test]
fn files_are_numbered_in_listing_order() {
    let listing = Listing::Entries(vec![
        file("a.png", 10),
        dir("sub"),
        file("b.jpg", 20),
        file("c.txt", 30),
    ]);
    let generation = Generation::rebuild(&listing).unwrap();
    assert_eq!(generation.total_count(), 3);
    let names = ["a.png", "b.jpg", "c.txt"];
    let sizes = [10u64, 20, 30];
    let mut id: u32 = 0;
    while id < 3 {
        let meme = generation.get(id).unwrap();
        assert_eq!(meme.id, id);
        assert_eq!(meme.filename, names[id as usize]);
        assert_eq!(meme.path, format!("/srv/memes/{}", names[id as usize]));
        assert_eq!(meme.size_bytes, sizes[id as usize]);
        id += 1;
    }
    assert!(generation.get(3).is_none());
    assert!(generation.get(u32::MAX).is_none());
}

#[test]
fn media_type_is_guessed_from_the_extension() {
    let listing = Listing::Entries(vec![
        file("a.png", 1),
        file("b.jpg", 1),
        file("c.txt", 1),
        file("d.gif", 1),
        file("E.PNG", 1),
        file("noextension", 1),
        file("strange.zzzunknown", 1),
    ]);
    let generation = Generation::rebuild(&listing).unwrap();
    assert_eq!(generation.total_count(), 7);
    assert_eq!(generation.get(0).unwrap().mime_type, "image/png");
    assert_eq!(generation.get(1).unwrap().mime_type, "image/jpeg");
    assert_eq!(generation.get(2).unwrap().mime_type, "text/plain");
    assert_eq!(generation.get(3).unwrap().mime_type, "image/gif");
    assert_eq!(generation.get(4).unwrap().mime_type, "image/png");
    assert_eq!(generation.get(5).unwrap().mime_type, "application/octet-stream");
    assert_eq!(generation.get(6).unwrap().mime_type, "application/octet-stream");
}

#[test]
fn empty_generation_holds_nothing() {
    let generation = Generation::empty();
    assert_eq!(generation.total_count(), 0);
    assert!(generation.get(0).is_none());
}

#[test]
fn describe_copies_the_entry() {
    let meme = describe(4, &file("x.webp", 99), "image/webp".to_string());
    assert_eq!(meme.id, 4);
    assert_eq!(meme.path, "/srv/memes/x.webp");
    assert_eq!(meme.filename, "x.webp");
    assert_eq!(meme.mime_type, "image/webp");
    assert_eq!(meme.size_bytes, 99);
}

#[test]
fn response_carries_id_and_media_type() {
    let meme = Meme {
        id: 2,
        path: "/p/q.png".to_string(),
        mime_type: "image/png".to_string(),
        filename: "q.png".to_string(),
        size_bytes: 5,
    };
    let response = MemeResponse::of(&meme);
    assert_eq!(response.id, 2);
    assert_eq!(response.mime_type, "image/png");
    let copy = meme.clone();
    assert_eq!(copy.id, 2);
    assert_eq!(copy.path, "/p/q.png");
    assert_eq!(copy.filename, "q.png");
    assert_eq!(copy.size_bytes, 5);
    let again = response.clone();
    assert_eq!(again.id, 2);
    assert_eq!(again.mime_type, "image/png");
}
