use meme_service::models::meme::Meme;
use meme_service::services::inventory::{Generation, Listing, ScannedEntry};
use meme_service::services::meme::{same_asset, Lookup, MemeService};
use meme_service::utils::error::{InitError, LoadError, LookupError, ScanError, WatcherError};
use std::cell::Cell;

fn file(name: &str) -> ScannedEntry {
    ScannedEntry {
        path: format!("/srv/memes/{}", name),
        filename: name.to_string(),
        is_file: true,
        size_bytes: name.len() as u64,
    }
}

fn listing(names: &[&str]) -> Listing {
    Listing::Entries(names.iter().map(|n| file(n)).collect())
}

fn content_of(path: String) -> Result<Vec<u8>, LoadError> {
    Ok(path.into_bytes())
}

fn started(names: &[&str], max_size: u64, ttl_secs: u64) -> MemeService {
    match MemeService::new("/srv/memes", max_size, ttl_secs, Ok(()), &listing(names)) {
        Ok(service) => service,
        Err(e) => panic!("the service did not start: {:?}", e),
    }
}

#[test]
fn service_starts_on_three_files() {
    let service = started(&["a.png", "b.jpg", "c.txt"], 10, 60);
    assert_eq!(service.total_count(), 3);
    assert_eq!(service.cached_count(), 0);
    assert_eq!(service.memes_dir(), "/srv/memes");
    assert_eq!(service.resolve(0).unwrap().filename, "a.png");
    assert_eq!(service.resolve(1).unwrap().mime_type, "image/jpeg");
    assert_eq!(service.resolve(2).unwrap().filename, "c.txt");
    assert_eq!(service.resolve(3).err(), Some(LookupError::NotFound));
}

#[test]
fn empty_directory_starts_no_service() {
    let r = MemeService::new("/srv/memes", 10, 60, Ok(()), &Listing::Entries(vec![]));
    assert_eq!(r.err(), Some(InitError::Empty));
}

#[test]
fn unreadable_directory_starts_no_service() {
    let r = MemeService::new("/srv/memes", 10, 60, Ok(()), &Listing::Failed);
    assert_eq!(r.err(), Some(InitError::Io));
}

#[test]
fn unwatchable_directory_starts_no_service() {
    let r = MemeService::new(
        "/srv/memes",
        10,
        60,
        Err(WatcherError::SetupFailed),
        &listing(&["a.png"]),
    );
    assert_eq!(r.err(), Some(InitError::WatcherSetup));
    let r = MemeService::new("/srv/memes", 10, 60, Err(WatcherError::SetupFailed), &Listing::Failed);
    assert_eq!(r.err(), Some(InitError::WatcherSetup));
}

#[test]
fn random_ids_stay_within_the_inventory() {
    let names = ["a.png", "b.jpg", "c.txt"];
    let mut service = started(&names, 10, 60);
    let mut seen = [false; 3];
    let mut n: u64 = 0;
    while n < 300 {
        let (meme, content) = service.get_random(n, content_of).unwrap();
        assert!(meme.id < 3);
        assert_eq!(meme.filename, names[meme.id as usize]);
        assert_eq!(content, format!("/srv/memes/{}", names[meme.id as usize]).into_bytes());
        seen[meme.id as usize] = true;
        n += 1;
    }
    assert!(seen[0] && seen[1] && seen[2]);
}

#[test]
fn single_file_is_always_drawn() {
    let mut service = started(&["only.gif"], 10, 60);
    let mut n: u64 = 0;
    while n < 20 {
        let id = service.draw().unwrap();
        assert_eq!(id, 0);
        let (meme, _) = service.get_random(n, content_of).unwrap();
        assert_eq!(meme.id, 0);
        assert_eq!(meme.mime_type, "image/gif");
        n += 1;
    }
}

#[test]
fn reload_replaces_the_inventory() {
    let mut service = started(&["a.png", "b.jpg", "c.txt"], 10, 60);
    assert_eq!(service.total_count(), 3);
    assert_eq!(service.reload_memes(&listing(&["a.png", "c.txt", "d.gif"])), Ok(()));
    assert_eq!(service.total_count(), 3);
    let mut id: u32 = 0;
    while id < 3 {
        assert_ne!(service.resolve(id).unwrap().filename, "b.jpg");
        id += 1;
    }
    assert_eq!(service.resolve(2).unwrap().filename, "d.gif");
    assert_eq!(service.resolve(2).unwrap().mime_type, "image/gif");
}

#[test]
fn after_a_shrinking_reload_no_old_id_is_served() {
    let mut service = started(&["a.png", "b.jpg", "c.txt", "d.gif", "e.bmp"], 10, 60);
    assert_eq!(service.reload_memes(&listing(&["x.png", "y.png"])), Ok(()));
    assert_eq!(service.total_count(), 2);
    let mut n: u64 = 0;
    while n < 200 {
        let (meme, _) = service.get_random(n, content_of).unwrap();
        assert!(meme.id < 2);
        assert!(meme.filename == "x.png" || meme.filename == "y.png");
        n += 1;
    }
    assert_eq!(service.serve(2, 0, content_of).err(), Some(LookupError::NotFound));
    assert_eq!(service.serve(4, 0, content_of).err(), Some(LookupError::NotFound));
}

#[test]
fn reload_empties_the_cache_so_a_reused_id_is_loaded_afresh() {
    let mut service = started(&["a.png", "b.jpg"], 10, 1000);
    let (_, before) = service.serve(0, 5, content_of).unwrap();
    assert_eq!(before, b"/srv/memes/a.png".to_vec());
    assert_eq!(service.cached_count(), 1);
    assert_eq!(service.cached(0, 6), Some(b"/srv/memes/a.png".to_vec()));
    assert_eq!(service.reload_memes(&listing(&["z.gif", "b.jpg"])), Ok(()));
    assert_eq!(service.cached_count(), 0);
    assert_eq!(service.cached(0, 6), None);
    assert_eq!(service.cached(1, 6), None);
    let (meme, after) = service.serve(0, 7, content_of).unwrap();
    assert_eq!(meme.filename, "z.gif");
    assert_eq!(after, b"/srv/memes/z.gif".to_vec());
}

#[test]
fn failed_reload_keeps_inventory_and_cache() {
    let mut service = started(&["a.png", "b.jpg"], 10, 1000);
    service.serve(1, 5, content_of).unwrap();
    assert_eq!(service.reload_memes(&Listing::Entries(vec![])), Err(ScanError::Empty));
    assert_eq!(service.total_count(), 2);
    assert_eq!(service.cached_count(), 1);
    assert_eq!(service.reload_memes(&Listing::Failed), Err(ScanError::Io));
    assert_eq!(service.total_count(), 2);
    assert_eq!(service.cached(1, 6), Some(b"/srv/memes/b.jpg".to_vec()));
    assert_eq!(service.commit(Err(ScanError::Io)), Err(ScanError::Io));
    assert_eq!(service.resolve(0).unwrap().filename, "a.png");
}

#[test]
fn committed_empty_inventory_answers_empty() {
    let mut service = started(&["a.png"], 10, 1000);
    assert_eq!(service.commit(Ok(Generation::empty())), Ok(()));
    assert_eq!(service.total_count(), 0);
    assert_eq!(service.draw(), Err(LookupError::Empty));
    assert_eq!(service.resolve(0).err(), Some(LookupError::Empty));
    assert_eq!(service.get_random(0, content_of).err(), Some(LookupError::Empty));
}

#[test]
fn unreadable_file_is_an_io_error_and_is_not_cached() {
    let mut service = started(&["a.png"], 10, 1000);
    let r = service.get_random(0, |_| Err(LoadError::Io));
    assert_eq!(r.err(), Some(LookupError::Io));
    assert_eq!(service.cached_count(), 0);
    let (meme, content) = service.get_random(1, content_of).unwrap();
    assert_eq!(meme.id, 0);
    assert_eq!(content, b"/srv/memes/a.png".to_vec());
}

#[test]
fn second_lookup_is_served_from_the_cache() {
    let mut service = started(&["a.png"], 10, 10);
    let loads = Cell::new(0u32);
    let first = service.serve(0, 100, |p| {
        loads.set(loads.get() + 1);
        content_of(p)
    });
    let second = service.serve(0, 101, |p| {
        loads.set(loads.get() + 1);
        content_of(p)
    });
    assert_eq!(loads.get(), 1);
    assert_eq!(first.unwrap().1, second.unwrap().1);
    let third = service.serve(0, 110, |_| {
        loads.set(loads.get() + 1);
        Ok(vec![1, 2])
    });
    assert_eq!(loads.get(), 2);
    assert_eq!(third.unwrap().1, vec![1, 2]);
}

#[test]
fn two_lookups_that_both_miss_return_the_same_content() {
    let mut service = started(&["a.png", "b.jpg"], 10, 10);
    let meme_one = service.resolve(1).unwrap();
    let meme_two = service.resolve(1).unwrap();
    assert_eq!(service.cached(1, 0), None);
    assert_eq!(service.cached(1, 0), None);
    let one = service.store_loaded(&meme_one, 0, content_of(meme_one.path.clone()));
    let two = service.store_loaded(&meme_two, 0, content_of(meme_two.path.clone()));
    assert_eq!(one, Ok(b"/srv/memes/b.jpg".to_vec()));
    assert_eq!(one, two);
    assert_eq!(service.cached_count(), 1);
    assert_eq!(service.cached(1, 1), Some(b"/srv/memes/b.jpg".to_vec()));
}

#[test]
fn content_loaded_across_a_reload_is_not_stored_under_a_reused_id() {
    let mut service = started(&["a.png", "b.jpg"], 10, 10);
    let old = service.resolve(0).unwrap();
    assert_eq!(service.reload_memes(&listing(&["z.gif", "b.jpg"])), Ok(()));
    let r = service.store_loaded(&old, 3, Ok(vec![1, 2, 3]));
    assert_eq!(r, Ok(vec![1, 2, 3]));
    assert_eq!(service.cached_count(), 0);
    assert_eq!(service.cached(0, 3), None);
    let kept = service.resolve(1).unwrap();
    assert_eq!(service.store_loaded(&kept, 3, Err(LoadError::Io)), Err(LookupError::Io));
    assert_eq!(service.cached_count(), 0);
    assert_eq!(service.store_loaded(&kept, 3, Ok(vec![4])), Ok(vec![4]));
    assert_eq!(service.cached(1, 4), Some(vec![4]));
}

#[test]
fn same_asset_compares_every_field() {
    let a = Meme {
        id: 1,
        path: "/p/a.png".to_string(),
        mime_type: "image/png".to_string(),
        filename: "a.png".to_string(),
        size_bytes: 3,
    };
    let mut b = a.clone();
    assert!(same_asset(&a, &b));
    b.size_bytes = 4;
    assert!(!same_asset(&a, &b));
    let mut c = a.clone();
    c.path = "/p/b.png".to_string();
    assert!(!same_asset(&a, &c));
    let mut d = a.clone();
    d.id = 2;
    assert!(!same_asset(&a, &d));
    let mut e = a.clone();
    e.mime_type = "image/gif".to_string();
    assert!(!same_asset(&a, &e));
    let mut f = a.clone();
    f.filename = "b.png".to_string();
    assert!(!same_asset(&a, &f));
}

#[test]
fn begun_lookup_tells_hit_from_miss() {
    let mut service = started(&["a.png", "b.jpg"], 10, 10);
    match service.begin(1, 0) {
        Ok(Lookup::Miss(meme)) => {
            assert_eq!(meme.id, 1);
            assert_eq!(meme.path, "/srv/memes/b.jpg");
            assert_eq!(service.store_loaded(&meme, 0, Ok(vec![8, 9])), Ok(vec![8, 9]));
        }
        other => panic!("expected a miss, got {:?}", other),
    }
    match service.begin(1, 9) {
        Ok(Lookup::Hit(meme, content)) => {
            assert_eq!(meme.filename, "b.jpg");
            assert_eq!(content, vec![8, 9]);
        }
        other => panic!("expected a hit, got {:?}", other),
    }
    assert!(matches!(service.begin(1, 10), Ok(Lookup::Miss(_))));
    assert_eq!(service.begin(2, 0).err(), Some(LookupError::NotFound));
    assert_eq!(service.cached_count(), 1);
}
